//! The market data of edgeX: what is done on each message.

use vstd::prelude::*;

use crate::backoff::{Backoff, Progress};
use crate::book;
use crate::book::{BookView, OrderBook, Side};
use crate::by_symbol::BySymbol;
use crate::config::EdgeXConfig;
use crate::edgex::book_builder;
use crate::edgex::book_builder::{BookBuilder, State};
use crate::edgex::message;
use crate::edgex::message::{DataType, DepthData, EdgeXEnvelope, EdgeXMessageKind};
use crate::edgex::meta;
use crate::ladder;
use crate::metrics::{SourceCounters, SourceMetrics};
use crate::source;
use crate::source::{MarketDataError, Next, SessionEnd};
use crate::status::{ConnectionState, ConnectionStatus};
use crate::symbol::{Dex, Symbol};
use crate::text_map::TextMap;
use crate::time::{Clock, Duration, Instant};
use crate::trace::MessageTrace;
use crate::wire;

verus! {

/// What has come in.
#[derive(Debug)]
pub enum Incoming {
    Message(EdgeXEnvelope),
    /// A message that could not be read.
    Unreadable,
}

/// What is to be done.
#[derive(Clone, Debug)]
pub enum Reaction {
    Nothing,
    /// A pong is to be sent.
    Pong,
    /// The channel is to be subscribed to anew, so that a snapshot comes in.
    Resubscribe(String),
    /// The book is to be handed on.
    Emit(OrderBook),
}

/// What a reaction says.
#[verifier::ext_equal]
pub enum Reacted {
    Nothing,
    Pong,
    Resubscribe(Seq<char>),
    Emit(BookView),
}

impl View for Reaction {
    type V = Reacted;

    open spec fn view(&self) -> Reacted {
        match *self {
            Reaction::Nothing => Reacted::Nothing,
            Reaction::Pong => Reacted::Pong,
            Reaction::Resubscribe(channel) => Reacted::Resubscribe(channel@),
            Reaction::Emit(book) => Reacted::Emit(book@),
        }
    }
}

/// What is to be done once the time is known.
#[derive(Clone, Debug)]
enum Todo {
    Nothing,
    Pong,
    Resubscribe(String),
    /// The book of the contract is to be handed on.
    Emit(String),
}

/// What is to be done once the time is known.
pub enum Task {
    Nothing,
    Pong,
    Resubscribe(Seq<char>),
    Emit(Seq<char>),
}

impl View for Todo {
    type V = Task;

    closed spec fn view(&self) -> Task {
        match *self {
            Todo::Nothing => Task::Nothing,
            Todo::Pong => Task::Pong,
            Todo::Resubscribe(channel) => Task::Resubscribe(channel@),
            Todo::Emit(id) => Task::Emit(id@),
        }
    }
}

/// How far the books of a connection have come. A book is kept under the id of its contract.
#[verifier::ext_equal]
pub struct Feed {
    pub counts: SourceMetrics,
    pub status: ConnectionStatus,
    /// How many levels are shown on each side.
    pub depth: nat,
    /// How many levels a channel brings.
    pub level: nat,
    pub books: Map<Seq<char>, (Symbol, State)>,
}

impl Feed {
    /// How many levels are kept on each side.
    pub open spec fn max(self) -> nat {
        if self.level == 0 {
            1
        } else {
            self.level
        }
    }

    /// The feed with `state` as the book of the contract `id`.
    pub open spec fn with_book_state(self, id: Seq<char>, state: State) -> Feed {
        Feed { books: self.books.insert(id, (self.books[id].0, state)), ..self }
    }
}

/// The contract that `data` is about: the one that it names, or else the one that the channel is
/// named after.
pub open spec fn contract_of(env: EdgeXEnvelope, data: DepthData) -> Option<Seq<char>> {
    match data.contract_id {
        Some(id) => Some(id@),
        None => match env.channel {
            Some(channel) => message::contract_id_in(channel@),
            None => None,
        },
    }
}

/// The channel of the message, or else the one of the contract `id`.
pub open spec fn channel_of(env: EdgeXEnvelope, id: Seq<char>, level: nat) -> Seq<char> {
    match env.channel {
        Some(channel) => channel@,
        None => message::channel_name(id, level),
    }
}

/// The data of the contract `id`, whose book is kept, is taken in. A change that does not follow on,
/// and data of an unknown type for a book that has started, spoil the book: it is dropped and
/// subscribed to anew. Data of an unknown type starts a book.
pub open spec fn data_taken(feed: Feed, env: EdgeXEnvelope, data: DepthData, id: Seq<char>) -> (
    Feed,
    Task,
) {
    let state = feed.books[id].1;
    match env.type_of_data() {
        DataType::Snapshot => (
            feed.with_book_state(id, book_builder::replaced(data, feed.max())),
            Task::Emit(id),
        ),
        DataType::Changed => if book_builder::refusal(state, data) is Some {
            (
                Feed {
                    counts: feed.counts.with_sequence_gap(),
                    ..feed.with_book_state(id, book_builder::initial())
                },
                Task::Resubscribe(channel_of(env, id, feed.level)),
            )
        } else {
            (
                feed.with_book_state(id, book_builder::changed(state, data, feed.max())),
                Task::Emit(id),
            )
        },
        DataType::Unknown => if state.initialized {
            (
                feed.with_book_state(id, book_builder::initial()),
                Task::Resubscribe(channel_of(env, id, feed.level)),
            )
        } else {
            (
                feed.with_book_state(id, book_builder::replaced(data, feed.max())),
                Task::Emit(id),
            )
        },
    }
}

/// A message is taken in.
pub open spec fn taken(feed: Feed, incoming: Incoming) -> (Feed, Task) {
    let counted = Feed { counts: feed.counts.with_message(), ..feed };
    match incoming {
        Incoming::Unreadable => (
            Feed { counts: counted.counts.with_parse_error(), ..counted },
            Task::Nothing,
        ),
        Incoming::Message(env) => match env.purpose() {
            EdgeXMessageKind::Ping => (counted, Task::Pong),
            EdgeXMessageKind::Depth => match env.depth_data() {
                Some(data) => match contract_of(env, data) {
                    Some(id) => if feed.books.contains_key(id) {
                        data_taken(counted, env, data, id)
                    } else {
                        (counted, Task::Nothing)
                    },
                    None => (counted, Task::Nothing),
                },
                None => (counted, Task::Nothing),
            },
            _ => (counted, Task::Nothing),
        },
    }
}

/// When the venue made the message.
pub open spec fn time_of(incoming: Incoming) -> Option<u64> {
    match incoming {
        Incoming::Message(env) => env.time_ms(),
        Incoming::Unreadable => None,
    }
}

/// The book of the contract `id` as it is shown at `at`.
pub open spec fn shown(
    feed: Feed,
    id: Seq<char>,
    exchange_ts_ms: Option<u64>,
    trace: MessageTrace,
    at: Instant,
) -> BookView {
    let (symbol, state) = feed.books[id];
    BookView {
        dex: Dex::EdgeX,
        symbol,
        bids: ladder::first_of(state.bids, feed.depth),
        asks: ladder::first_of(state.asks, feed.depth),
        trace: MessageTrace { exchange_ts_ms, normalized_instant: Some(at), ..trace },
    }
}

/// What is to be done is done at `at`. A crossed book is not handed on.
pub open spec fn done(
    feed: Feed,
    task: Task,
    exchange_ts_ms: Option<u64>,
    trace: MessageTrace,
    at: Instant,
) -> Reacted {
    match task {
        Task::Nothing => Reacted::Nothing,
        Task::Pong => Reacted::Pong,
        Task::Resubscribe(channel) => Reacted::Resubscribe(channel),
        Task::Emit(id) => {
            let book = shown(feed, id, exchange_ts_ms, trace, at);
            if book.crossed() {
                Reacted::Nothing
            } else {
                Reacted::Emit(book)
            }
        },
    }
}

/// A message has come in.
pub open spec fn after_message(
    feed: Feed,
    incoming: Incoming,
    trace: MessageTrace,
    at: Instant,
) -> (Feed, Reacted) {
    let (after, task) = taken(feed, incoming);
    (after, done(after, task, time_of(incoming), trace, at))
}

/// The ids that are configured, over those in `ids`.
pub open spec fn overridden(ids: Map<Symbol, Seq<char>>, configured: Seq<(Symbol, String)>) -> Map<
    Symbol,
    Seq<char>,
>
    decreases configured.len(),
{
    if configured.len() == 0 {
        ids
    } else {
        overridden(ids, configured.drop_last()).insert(
            configured.last().0,
            configured.last().1@,
        )
    }
}

/// The ids that the metadata gives, where they could be had.
pub open spec fn given_ids(fetched: Option<BySymbol<String>>) -> Option<Map<Symbol, Seq<char>>> {
    match fetched {
        Some(ids) => Some(meta::texts(ids@)),
        None => None,
    }
}

/// The ids of `symbols`: those that are configured, or else those that the metadata gives, where
/// it is asked for and could be had.
pub open spec fn selected(
    cfg: EdgeXConfig,
    fetched: Option<Map<Symbol, Seq<char>>>,
    symbols: Seq<Symbol>,
) -> Map<Symbol, Seq<char>> {
    let known = overridden(
        match fetched {
            Some(ids) => if cfg.resolve_contract_ids {
                ids
            } else {
                Map::empty()
            },
            None => Map::empty(),
        },
        cfg.contract_ids@,
    );
    known.restrict(Set::new(|s: Symbol| symbols.contains(s)))
}

/// The books with which a connection to `contracts` starts. Where two instruments have one id, the
/// book is that of the later one.
pub open spec fn fresh_books(contracts: Map<Symbol, Seq<char>>, n: nat) -> Map<
    Seq<char>,
    (Symbol, State),
>
    decreases n,
{
    if n == 0 {
        Map::empty()
    } else {
        let before = fresh_books(contracts, (n - 1) as nat);
        let symbol = crate::symbol::all_symbols()[n - 1];
        if contracts.contains_key(symbol) {
            before.insert(contracts[symbol], (symbol, book_builder::initial()))
        } else {
            before
        }
    }
}

/// The channels of `contracts`, in canonical order of the instruments.
pub open spec fn channels_of(contracts: Map<Symbol, Seq<char>>, level: nat, n: nat) -> Seq<Seq<char>>
    decreases n,
{
    if n == 0 {
        Seq::empty()
    } else {
        let before = channels_of(contracts, level, (n - 1) as nat);
        let symbol = crate::symbol::all_symbols()[n - 1];
        if contracts.contains_key(symbol) {
            before.push(message::channel_name(contracts[symbol], level))
        } else {
            before
        }
    }
}

/// The market data of edgeX.
pub struct EdgeXMarketData {
    cfg: EdgeXConfig,
    state: ConnectionState,
    counters: SourceCounters,
    depth: usize,
    builders: TextMap<BookBuilder>,
}

impl View for EdgeXMarketData {
    type V = Feed;

    closed spec fn view(&self) -> Feed {
        Feed {
            counts: self.counters@,
            status: self.state@,
            depth: self.depth as nat,
            level: self.cfg.depth_level as nat,
            books: self.builders@.map_values(|b: BookBuilder| (b.symbol_of(), b@)),
        }
    }
}

impl EdgeXMarketData {
    /// Whether every book is in order.
    pub closed spec fn wf(self) -> bool {
        forall|id: Seq<char>| #[trigger]
            self.builders@.contains_key(id) ==> self.builders@[id].wf()
                && self.builders@[id].max() == self@.max()
    }

    /// The configuration.
    pub closed spec fn config_of(self) -> EdgeXConfig {
        self.cfg
    }

    /// A source that is not connected.
    pub fn new(cfg: EdgeXConfig) -> (r: EdgeXMarketData)
        ensures
            r.wf(),
            r.config_of() == cfg,
            r@.counts == SourceMetrics::none(),
            r@.status == ConnectionStatus::Disconnected,
            r@.level == cfg.depth_level,
            r@.books == Map::<Seq<char>, (Symbol, State)>::empty(),
    {
        let r = EdgeXMarketData {
            cfg,
            state: ConnectionState::new(),
            counters: SourceCounters::new(),
            depth: 0,
            builders: TextMap::new(),
        };
        proof {
            assert(r@.books =~= Map::<Seq<char>, (Symbol, State)>::empty());
        }
        r
    }

    /// How many messages came in.
    pub fn messages_received(&self) -> (r: u64)
        ensures
            r == self@.counts.messages_received,
    {
        self.counters.snapshot().messages_received
    }

    /// How many books went out.
    pub fn books_emitted(&self) -> (r: u64)
        ensures
            r == self@.counts.books_emitted,
    {
        self.counters.snapshot().books_emitted
    }

    /// How many messages could not be read.
    pub fn parse_errors(&self) -> (r: u64)
        ensures
            r == self@.counts.parse_errors,
    {
        self.counters.snapshot().parse_errors
    }

    /// How many changes did not follow on. Where this keeps growing, the rebuilding or the
    /// connection is at fault.
    pub fn sequence_gaps(&self) -> (r: u64)
        ensures
            r == self@.counts.sequence_gaps,
    {
        self.counters.snapshot().sequence_gaps
    }

    /// The venue.
    pub fn dex(&self) -> (r: Dex)
        ensures
            r == Dex::EdgeX,
    {
        Dex::EdgeX
    }

    /// How the connection stands.
    pub fn connection_status(&self) -> (r: ConnectionStatus)
        ensures
            r == self@.status,
    {
        self.state.get()
    }

    /// The counts. New subscriptions after a gap are counted as gaps only, and a crossed book is
    /// dropped without being counted.
    pub fn metrics(&self) -> (r: SourceMetrics)
        ensures
            r == (SourceMetrics { resyncs: 0, crossed_books: 0, ..self@.counts }),
    {
        SourceMetrics { resyncs: 0, crossed_books: 0, ..self.counters.snapshot() }
    }

    /// The delays between attempts to connect.
    pub fn backoff(&self) -> (r: Backoff)
        ensures
            r.wf(),
            r@ == Progress::of_policy(
                self.config_of().reconnect_base_delay_ms,
                self.config_of().reconnect_max_delay_ms,
                self.config_of().reconnect_max_attempts,
            ),
    {
        let policy = self.cfg.reconnect_policy();
        Backoff::new(policy.base_delay_ms, policy.max_delay_ms, policy.max_attempts)
    }

    /// The ids of `symbols`, where they are known: those that are configured, or else those that the
    /// metadata gives. `fetched` are the latter, where they could be had. A configured id always
    /// comes first, so that a change on the venue's side can be met.
    pub fn resolve_contract_ids(&self, symbols: &[Symbol], fetched: &Option<BySymbol<String>>) -> (r:
        Result<BySymbol<String>, MarketDataError>)
        ensures
            r is Ok <==> exists|s: Symbol| #[trigger]
                selected(self.config_of(), given_ids(*fetched), symbols@).contains_key(s),
            r matches Ok(ids) ==> meta::texts(ids@) == selected(
                self.config_of(),
                given_ids(*fetched),
                symbols@,
            ),
            r matches Err(e) ==> e matches MarketDataError::Config(s) && s@
                == "購読可能な contractId が 1 つもありません"@,
    {
        let mut known: BySymbol<String> = BySymbol::new();
        proof {
            assert(meta::texts(known@) =~= Map::empty());
        }
        if self.cfg.resolve_contract_ids {
            if let Some(ids) = fetched {
                known = copied(ids);
            }
        }
        let ghost base = meta::texts(known@);
        let configured = &self.cfg.contract_ids;
        let n: usize = configured.len();
        let mut i: usize = 0;
        while i < n
            invariant
                i <= n,
                n == configured@.len(),
                meta::texts(known@) == overridden(base, configured@.take(i as int)),
            decreases n - i,
        {
            let ghost before = known@;
            let id = configured[i].1.as_str().to_owned();
            known.set(configured[i].0, id);
            proof {
                assert(configured@.take(i + 1).drop_last() =~= configured@.take(i as int));
                assert(configured@.take(i + 1).last() == configured@[i as int]);
                assert(meta::texts(known@) =~= meta::texts(before).insert(
                    configured@[i as int].0,
                    id@,
                ));
            }
            i += 1;
        }
        proof {
            assert(configured@.take(n as int) =~= configured@);
        }
        let mut out: BySymbol<String> = BySymbol::new();
        let mut found = false;
        let m: usize = symbols.len();
        let mut j: usize = 0;
        let ghost all = meta::texts(known@);
        proof {
            assert(meta::texts(out@) =~= all.restrict(
                Set::new(|s: Symbol| symbols@.take(0).contains(s)),
            ));
        }
        while j < m
            invariant
                j <= m,
                m == symbols@.len(),
                all == meta::texts(known@),
                found <==> exists|s: Symbol| #[trigger] out@.contains_key(s),
                meta::texts(out@) == all.restrict(
                    Set::new(|s: Symbol| symbols@.take(j as int).contains(s)),
                ),
            decreases m - j,
        {
            let symbol = symbols[j];
            let ghost before = meta::texts(out@);
            let ghost (few, more) = (symbols@.take(j as int), symbols@.take(j + 1));
            proof {
                assert(more =~= few.push(symbol));
                assert forall|s: Symbol| more.contains(s) <==> few.contains(s) || s == symbol by {
                    if few.contains(s) {
                        let k = choose|k: int| 0 <= k < few.len() && few[k] == s;
                        assert(more[k] == s);
                    }
                    assert(more[j as int] == symbol);
                }
            }
            match known.get(symbol) {
                Some(id) => {
                    let id = id.as_str().to_owned();
                    out.set(symbol, id);
                    found = true;
                    proof {
                        assert(out@.contains_key(symbol));
                        assert(meta::texts(out@) =~= before.insert(symbol, id@));
                        assert(meta::texts(out@) =~= all.restrict(
                            Set::new(|s: Symbol| more.contains(s)),
                        ));
                    }
                },
                None => {
                    proof {
                        assert(meta::texts(out@) =~= all.restrict(
                            Set::new(|s: Symbol| more.contains(s)),
                        ));
                    }
                },
            }
            j += 1;
        }
        proof {
            assert(symbols@.take(m as int) =~= symbols@);
            let given = given_ids(*fetched);
            let wanted = selected(self.config_of(), given, symbols@);
            assert(base =~= match given {
                Some(ids) => if self.cfg.resolve_contract_ids {
                    ids
                } else {
                    Map::empty()
                },
                None => Map::empty(),
            });
            assert(meta::texts(out@) =~= wanted);
            if found {
                let s = choose|s: Symbol| #[trigger] out@.contains_key(s);
                assert(wanted.contains_key(s));
            }
            if exists|s: Symbol| #[trigger] wanted.contains_key(s) {
                let s = choose|s: Symbol| #[trigger] wanted.contains_key(s);
                assert(out@.contains_key(s));
            }
        }
        if found {
            Ok(out)
        } else {
            Err(MarketDataError::Config("購読可能な contractId が 1 つもありません".to_owned()))
        }
    }

    /// Notes that a connection stands, and starts the books of `contracts` anew: says what channels
    /// are to be subscribed to. `depth` levels are shown on each side.
    pub fn begin_session(
        &mut self,
        contracts: &BySymbol<String>,
        depth: usize,
        backoff: &mut Backoff,
    ) -> (r: Vec<String>)
        requires
            old(self).wf(),
            old(backoff).wf(),
        ensures
            final(self).wf(),
            final(self).config_of() == old(self).config_of(),
            final(backoff).wf(),
            final(backoff)@ == (Progress { attempt: 0, ..old(backoff)@ }),
            final(self)@ == (Feed {
                status: ConnectionStatus::Connected,
                depth: depth as nat,
                books: fresh_books(meta::texts(contracts@), 4),
                ..old(self)@
            }),
            crate::text::views(r@) == channels_of(meta::texts(contracts@), old(self)@.level, 4),
    {
        source::session_started(&mut self.state, backoff);
        self.depth = depth;
        self.builders = TextMap::new();
        let all = Symbol::ALL;
        let ghost ids = meta::texts(contracts@);
        let mut channels: Vec<String> = Vec::new();
        let mut i: usize = 0;
        proof {
            assert(all@ =~= crate::symbol::all_symbols());
            assert(self@.books =~= fresh_books(ids, 0));
            assert(crate::text::views(channels@) =~= channels_of(ids, self@.level, 0));
        }
        while i < 4
            invariant
                i <= 4,
                all@ == crate::symbol::all_symbols(),
                ids == meta::texts(contracts@),
                self.wf(),
                self.config_of() == old(self).config_of(),
                self@ == (Feed {
                    status: ConnectionStatus::Connected,
                    depth: depth as nat,
                    books: fresh_books(ids, i as nat),
                    ..old(self)@
                }),
                crate::text::views(channels@) == channels_of(ids, self@.level, i as nat),
            decreases 4 - i,
        {
            let symbol = all[i];
            if let Some(id) = contracts.get(symbol) {
                let ghost before = self@;
                let ghost listed = crate::text::views(channels@);
                let builder = BookBuilder::new(symbol, self.cfg.depth_level);
                self.builders.set(id.as_str(), builder);
                let channel = message::depth_channel(id.as_str(), self.cfg.depth_level);
                channels.push(channel);
                proof {
                    assert(ids[symbol] == id@);
                    assert(self@.books =~= before.books.insert(
                        id@,
                        (symbol, book_builder::initial()),
                    ));
                    assert(crate::text::views(channels@) =~= listed.push(channel@));
                }
            }
            proof {
                assert(fresh_books(ids, (i + 1) as nat) == if ids.contains_key(symbol) {
                    fresh_books(ids, i as nat).insert(
                        ids[symbol],
                        (symbol, book_builder::initial()),
                    )
                } else {
                    fresh_books(ids, i as nat)
                });
            }
            i += 1;
        }
        channels
    }

    fn take_message(&mut self, incoming: &Incoming) -> (r: Todo)
        requires
            old(self).wf(),
        ensures
            final(self).wf(),
            final(self).config_of() == old(self).config_of(),
            (final(self)@, r@) == taken(old(self)@, *incoming),
            r@ matches Task::Emit(id) ==> final(self)@.books.contains_key(id),
    {
        self.counters.record_message();
        let env = match incoming {
            Incoming::Message(env) => env,
            Incoming::Unreadable => {
                self.counters.record_parse_error();
                return Todo::Nothing;
            },
        };
        match env.message_kind() {
            EdgeXMessageKind::Ping => return Todo::Pong,
            EdgeXMessageKind::Depth => {},
            _ => return Todo::Nothing,
        }
        let data = match env.depth() {
            Some(data) => data,
            None => return Todo::Nothing,
        };
        let id = match &data.contract_id {
            Some(id) => id.as_str().to_owned(),
            None => match &env.channel {
                Some(channel) => match message::contract_id_from_channel(channel.as_str()) {
                    Some(id) => id,
                    None => return Todo::Nothing,
                },
                None => return Todo::Nothing,
            },
        };
        let ghost counted = self@;
        let mut builder = match self.builders.take(id.as_str()) {
            Some(builder) => builder,
            None => {
                proof {
                    assert(self@.books =~= counted.books);
                    assert(self@ =~= counted);
                }
                return Todo::Nothing;
            },
        };
        let ghost symbol = builder.symbol_of();
        let mut spoiled = false;
        match env.data_type() {
            DataType::Snapshot => {
                let _ = builder.apply_snapshot(data);
            },
            DataType::Changed => {
                if builder.apply_diff(data).is_err() {
                    self.counters.record_sequence_gap();
                    builder.reset();
                    spoiled = true;
                }
            },
            DataType::Unknown => {
                if builder.is_initialized() {
                    builder.reset();
                    spoiled = true;
                } else {
                    let _ = builder.apply_snapshot(data);
                }
            },
        }
        self.builders.set(id.as_str(), builder);
        proof {
            assert(self@.books =~= counted.books.insert(id@, (symbol, builder@)));
            assert(self@ =~= data_taken(counted, *env, *data, id@).0);
        }
        if spoiled {
            let channel = match &env.channel {
                Some(channel) => channel.as_str().to_owned(),
                None => message::depth_channel(id.as_str(), self.cfg.depth_level),
            };
            return Todo::Resubscribe(channel);
        }
        Todo::Emit(id)
    }

    fn act(&self, todo: Todo, incoming: &Incoming, trace: MessageTrace, at: Instant) -> (r: Reaction)
        requires
            self.wf(),
            todo@ matches Task::Emit(id) ==> self@.books.contains_key(id),
        ensures
            r@ == done(self@, todo@, time_of(*incoming), trace, at),
            r matches Reaction::Emit(book) ==> book.fault() is None,
    {
        let exchange_ts_ms = match incoming {
            Incoming::Message(env) => env.exchange_ts_ms(),
            Incoming::Unreadable => None,
        };
        match todo {
            Todo::Nothing => Reaction::Nothing,
            Todo::Pong => Reaction::Pong,
            Todo::Resubscribe(channel) => Reaction::Resubscribe(channel),
            Todo::Emit(id) => match self.builders.get(id.as_str()) {
                Some(builder) => {
                    let book = builder.order_book_at(self.depth, exchange_ts_ms, trace, at);
                    proof {
                        assert(book@ =~= shown(self@, id@, exchange_ts_ms, trace, at));
                    }
                    if book.is_crossed() {
                        Reaction::Nothing
                    } else {
                        Reaction::Emit(book)
                    }
                },
                None => Reaction::Nothing,
            },
        }
    }

    /// Takes in a message; `at` is the time at which that is done.
    pub fn on_message_at(&mut self, incoming: &Incoming, trace: MessageTrace, at: Instant) -> (r:
        Reaction)
        requires
            old(self).wf(),
        ensures
            final(self).wf(),
            final(self).config_of() == old(self).config_of(),
            (final(self)@, r@) == after_message(old(self)@, *incoming, trace, at),
            r matches Reaction::Emit(book) ==> book.fault() is None,
    {
        let todo = self.take_message(incoming);
        self.act(todo, incoming, trace, at)
    }

    /// Takes in a message.
    pub fn on_message(&mut self, incoming: &Incoming, trace: MessageTrace, clock: &Clock) -> (r:
        Reaction)
        requires
            old(self).wf(),
        ensures
            final(self).wf(),
            final(self).config_of() == old(self).config_of(),
            exists|at: Instant|
                (final(self)@, r@) == #[trigger] after_message(old(self)@, *incoming, trace, at),
            r matches Reaction::Emit(book) ==> book.fault() is None,
    {
        let todo = self.take_message(incoming);
        let at = clock.now();
        let r = self.act(todo, incoming, trace, at);
        proof {
            assert((self@, r@) == after_message(old(self)@, *incoming, trace, at));
        }
        r
    }

    /// Notes that a book was handed on.
    pub fn book_sent(&mut self)
        requires
            old(self).wf(),
        ensures
            final(self).wf(),
            final(self).config_of() == old(self).config_of(),
            final(self)@ == (Feed { counts: old(self)@.counts.with_book(), ..old(self)@ }),
    {
        self.counters.record_book();
    }

    /// Decides how to go on after a connection has ended.
    pub fn end_session(&mut self, backoff: &mut Backoff, end: SessionEnd) -> (r: Next)
        requires
            old(self).wf(),
            old(backoff).wf(),
        ensures
            final(self).wf(),
            final(self).config_of() == old(self).config_of(),
            final(self)@ == (Feed { status: final(self)@.status, ..old(self)@ }),
            source::went_on(old(backoff)@, end, final(self)@.status, final(backoff)@, r),
            final(backoff).wf(),
    {
        source::after_session(&mut self.state, backoff, end)
    }

    /// The span between two pings: a second at least.
    pub fn ping_interval(&self) -> (r: Duration)
        ensures
            r.nanos == 1_000_000_000 * if self.config_of().ping_interval_secs == 0 {
                1
            } else {
                self.config_of().ping_interval_secs as int
            },
    {
        Duration::from_secs(
            if self.cfg.ping_interval_secs == 0 {
                1
            } else {
                self.cfg.ping_interval_secs
            },
        )
    }

    /// The span after which all channels are subscribed to anew, so that the snapshots can be
    /// compared with the books; `None` for never.
    pub fn resync_interval(&self) -> (r: Option<Duration>)
        ensures
            r is None <==> self.config_of().resync_interval_secs == 0,
            r matches Some(span) ==> span.nanos == self.config_of().resync_interval_secs
                * 1_000_000_000,
    {
        if self.cfg.resync_interval_secs == 0 {
            None
        } else {
            Some(Duration::from_secs(self.cfg.resync_interval_secs))
        }
    }
}

fn copied(ids: &BySymbol<String>) -> (r: BySymbol<String>)
    ensures
        meta::texts(r@) == meta::texts(ids@),
{
    let all = Symbol::ALL;
    let mut out: BySymbol<String> = BySymbol::new();
    let mut i: usize = 0;
    while i < 4
        invariant
            i <= 4,
            all@ == crate::symbol::all_symbols(),
            forall|s: Symbol| #[trigger]
                out@.contains_key(s) <==> ids@.contains_key(s) && s.rank() < i,
            forall|s: Symbol| #[trigger] out@.contains_key(s) ==> out@[s]@ == ids@[s]@,
        decreases 4 - i,
    {
        let symbol = all[i];
        proof {
            assert(symbol.rank() == i);
            assert forall|s: Symbol| s.rank() == i implies s == symbol by {}
        }
        if let Some(id) = ids.get(symbol) {
            out.set(symbol, id.as_str().to_owned());
        }
        i += 1;
    }
    proof {
        assert(meta::texts(out@) =~= meta::texts(ids@));
    }
    out
}

/// The messages that subscribe to `channel` anew: the old subscription is ended first.
pub fn resubscribe_messages(channel: &str) -> (r: (String, String))
    ensures
        r.0@ == "{\"type\":\"unsubscribe\",\"channel\":\""@ + channel@ + "\"}"@,
        r.1@ == "{\"type\":\"subscribe\",\"channel\":\""@ + channel@ + "\"}"@,
{
    (message::unsubscribe_message(channel), message::subscribe_message(channel))
}

/// A configured id comes before the one that the metadata gives.
pub proof fn law_configured_id_comes_first(
    cfg: EdgeXConfig,
    fetched: Option<Map<Symbol, Seq<char>>>,
    symbols: Seq<Symbol>,
    i: int,
)
    requires
        0 <= i < cfg.contract_ids@.len(),
        symbols.contains(cfg.contract_ids@[i].0),
        forall|j: int|
            i < j < cfg.contract_ids@.len() ==> (#[trigger] cfg.contract_ids@[j]).0
                != cfg.contract_ids@[i].0,
    ensures
        selected(cfg, fetched, symbols).contains_key(cfg.contract_ids@[i].0),
        selected(cfg, fetched, symbols)[cfg.contract_ids@[i].0] == cfg.contract_ids@[i].1@,
{
    let base = match fetched {
        Some(ids) => if cfg.resolve_contract_ids {
            ids
        } else {
            Map::empty()
        },
        None => Map::empty(),
    };
    lemma_overridden(base, cfg.contract_ids@, i);
}

proof fn lemma_overridden(
    ids: Map<Symbol, Seq<char>>,
    configured: Seq<(Symbol, String)>,
    i: int,
)
    requires
        0 <= i < configured.len(),
        forall|j: int|
            i < j < configured.len() ==> (#[trigger] configured[j]).0 != configured[i].0,
    ensures
        overridden(ids, configured).contains_key(configured[i].0),
        overridden(ids, configured)[configured[i].0] == configured[i].1@,
    decreases configured.len(),
{
    if i < configured.len() - 1 {
        let front = configured.drop_last();
        assert forall|j: int| i < j < front.len() implies (#[trigger] front[j]).0
            != front[i].0 by {
            assert(front[j] == configured[j]);
        }
        lemma_overridden(ids, front, i);
        assert(configured[configured.len() - 1] == configured.last());
        assert(front[i] == configured[i]);
    }
}

/// A book is handed on only where it is not crossed, and a message about one contract leaves the
/// books of all others as they are.
pub proof fn law_contracts_do_not_mix(
    feed: Feed,
    env: EdgeXEnvelope,
    trace: MessageTrace,
    at: Instant,
    other: Seq<char>,
)
    requires
        env.depth_data() matches Some(data) ==> contract_of(env, data) != Some(other),
    ensures
        after_message(feed, Incoming::Message(env), trace, at).1 matches Reacted::Emit(book)
            ==> !book.crossed(),
        after_message(feed, Incoming::Message(env), trace, at).0.books.contains_key(other)
            == feed.books.contains_key(other),
        after_message(feed, Incoming::Message(env), trace, at).0.books[other] == feed.books[other],
{
}

/// A change that does not follow on is answered by a new subscription, after which the book waits
/// for a snapshot.
pub proof fn law_gap_is_answered_by_a_new_subscription(
    feed: Feed,
    env: EdgeXEnvelope,
    data: DepthData,
    id: Seq<char>,
    trace: MessageTrace,
    at: Instant,
)
    requires
        env.purpose() == EdgeXMessageKind::Depth,
        env.depth_data() == Some(data),
        env.type_of_data() == DataType::Changed,
        contract_of(env, data) == Some(id),
        feed.books.contains_key(id),
        book_builder::refusal(feed.books[id].1, data) is Some,
    ensures
        after_message(feed, Incoming::Message(env), trace, at).1 == Reacted::Resubscribe(
            channel_of(env, id, feed.level),
        ),
        after_message(feed, Incoming::Message(env), trace, at).0.books[id].1
            == book_builder::initial(),
{
}

/// Whether every book of the feed is in order.
pub open spec fn in_order(feed: Feed) -> bool {
    forall|id: Seq<char>| #[trigger]
        feed.books.contains_key(id) ==> {
            let s = feed.books[id].1;
            &&& ladder::best_first(Side::Bid, s.bids) && book::all_positive(s.bids)
            &&& ladder::best_first(Side::Ask, s.asks) && book::all_positive(s.asks)
        }
}

/// The levels of a message go into the book of its contract and into no other. A snapshot, or data of
/// an unknown type where there is no book yet, is listed anew; a change that follows on is made to
/// the book that was there; anything else empties the book and asks for it anew.
pub proof fn law_levels_go_into_the_book_of_their_contract(
    feed: Feed,
    env: EdgeXEnvelope,
    data: DepthData,
    id: Seq<char>,
    trace: MessageTrace,
    at: Instant,
)
    requires
        in_order(feed),
        env.purpose() == EdgeXMessageKind::Depth,
        env.depth_data() == Some(data),
        contract_of(env, data) == Some(id),
        feed.books.contains_key(id),
    ensures
        ({
            let (after, reaction) = after_message(feed, Incoming::Message(env), trace, at);
            let (old_state, new_state) = (feed.books[id].1, after.books[id].1);
            let (bids, asks) = (ladder::pairs(data.bids@), ladder::pairs(data.asks@));
            let max = feed.max();
            let kind = env.type_of_data();
            let (start, end) = (
                wire::value_of(data.start_version),
                wire::value_of(data.end_version),
            );
            let whole = kind == DataType::Snapshot || (kind == DataType::Unknown
                && !old_state.initialized);
            let follows = kind == DataType::Changed && old_state.initialized && (
            old_state.last_version is None || start is None || old_state.last_version == start);
            &&& in_order(after)
            &&& after.books.dom() == feed.books.dom()
            &&& after.books[id].0 == feed.books[id].0
            &&& forall|other: Seq<char>|
                other != id && feed.books.contains_key(other) ==> #[trigger] after.books[other]
                    == feed.books[other]
            &&& if whole {
                &&& ladder::is_listing(Side::Bid, bids, new_state.bids, max)
                &&& ladder::is_listing(Side::Ask, asks, new_state.asks, max)
                &&& new_state.last_version == end
            } else if follows {
                &&& ladder::is_update(Side::Bid, old_state.bids, bids, new_state.bids, max)
                &&& ladder::is_update(Side::Ask, old_state.asks, asks, new_state.asks, max)
                &&& end is Some ==> new_state.last_version == end
                &&& end is None ==> new_state.last_version == old_state.last_version
            } else {
                &&& new_state.bids.len() == 0 && new_state.asks.len() == 0
                &&& !new_state.initialized
                &&& reaction matches Reacted::Resubscribe(channel) && match env.channel {
                    Some(named) => channel == named@,
                    None => channel == message::channel_name(id, feed.level),
                }
                &&& kind == DataType::Changed ==> after.counts.sequence_gaps
                    == feed.counts.sequence_gaps.wrapping_add(1)
            }
            &&& after.counts.messages_received == feed.counts.messages_received.wrapping_add(1)
            &&& after.counts.parse_errors == feed.counts.parse_errors
            &&& (whole || follows) ==> {
                &&& new_state.initialized
                &&& after.counts.sequence_gaps == feed.counts.sequence_gaps
                &&& reaction == Reacted::Nothing || reaction is Emit
            }
            &&& reaction matches Reacted::Emit(book) ==> {
                &&& book.dex == Dex::EdgeX
                &&& book.symbol == feed.books[id].0
                &&& ladder::is_top(new_state.bids, feed.depth, book.bids)
                &&& ladder::is_top(new_state.asks, feed.depth, book.asks)
                &&& !book.crossed()
                &&& book.trace == (MessageTrace {
                    exchange_ts_ms: env.time_ms(),
                    normalized_instant: Some(at),
                    ..trace
                })
            }
        }),
{
    book_builder::law_snapshot_shows_its_quotes(data, feed.max());
    book_builder::law_change_settles_what_it_names(feed.books[id].1, data, feed.max());
    let after = after_message(feed, Incoming::Message(env), trace, at).0;
    assert(after.books.dom() =~= feed.books.dom());
    assert forall|other: Seq<char>| #[trigger] after.books.contains_key(other) implies {
        let s = after.books[other].1;
        &&& ladder::best_first(Side::Bid, s.bids) && book::all_positive(s.bids)
        &&& ladder::best_first(Side::Ask, s.asks) && book::all_positive(s.asks)
    } by {
        assert(feed.books.contains_key(other));
    }
}

/// A ping is answered by a pong; a message without levels changes nothing but the count of messages,
/// and one that cannot be read is counted as such.
pub proof fn law_other_messages_change_nothing(
    feed: Feed,
    env: EdgeXEnvelope,
    trace: MessageTrace,
    at: Instant,
)
    requires
        env.purpose() != EdgeXMessageKind::Depth,
    ensures
        after_message(feed, Incoming::Message(env), trace, at) == (
            Feed {
                counts: SourceMetrics {
                    messages_received: feed.counts.messages_received.wrapping_add(1),
                    ..feed.counts
                },
                ..feed
            },
            if env.purpose() == EdgeXMessageKind::Ping {
                Reacted::Pong
            } else {
                Reacted::Nothing
            },
        ),
        after_message(feed, Incoming::Unreadable, trace, at) == (
            Feed {
                counts: SourceMetrics {
                    messages_received: feed.counts.messages_received.wrapping_add(1),
                    parse_errors: feed.counts.parse_errors.wrapping_add(1),
                    ..feed.counts
                },
                ..feed
            },
            Reacted::Nothing,
        ),
{
}

/// An id that is not configured is the one that the metadata gives, where it is asked for; an
/// instrument that is not wanted has none.
pub proof fn law_other_ids_come_from_the_metadata(
    cfg: EdgeXConfig,
    fetched: Option<Map<Symbol, Seq<char>>>,
    symbols: Seq<Symbol>,
    symbol: Symbol,
)
    requires
        forall|j: int|
            0 <= j < cfg.contract_ids@.len() ==> (#[trigger] cfg.contract_ids@[j]).0 != symbol,
    ensures
        selected(cfg, fetched, symbols).contains_key(symbol) <==> symbols.contains(symbol)
            && cfg.resolve_contract_ids && (fetched matches Some(ids) && ids.contains_key(symbol)),
        selected(cfg, fetched, symbols).contains_key(symbol) ==> selected(
            cfg,
            fetched,
            symbols,
        )[symbol] == fetched.unwrap()[symbol],
{
    let base = match fetched {
        Some(ids) => if cfg.resolve_contract_ids {
            ids
        } else {
            Map::empty()
        },
        None => Map::empty(),
    };
    lemma_not_overridden(base, cfg.contract_ids@, symbol);
}

proof fn lemma_not_overridden(
    ids: Map<Symbol, Seq<char>>,
    configured: Seq<(Symbol, String)>,
    symbol: Symbol,
)
    requires
        forall|j: int| 0 <= j < configured.len() ==> (#[trigger] configured[j]).0 != symbol,
    ensures
        overridden(ids, configured).contains_key(symbol) == ids.contains_key(symbol),
        ids.contains_key(symbol) ==> overridden(ids, configured)[symbol] == ids[symbol],
    decreases configured.len(),
{
    if configured.len() > 0 {
        let front = configured.drop_last();
        assert forall|j: int| 0 <= j < front.len() implies (#[trigger] front[j]).0 != symbol by {
            assert(front[j] == configured[j]);
        }
        lemma_not_overridden(ids, front, symbol);
        assert(configured[configured.len() - 1] == configured.last());
    }
}

/// A connection starts with an empty book for every contract and asks for the channel of every
/// contract.
pub proof fn law_every_contract_is_subscribed_to(
    contracts: Map<Symbol, Seq<char>>,
    level: nat,
    symbol: Symbol,
)
    requires
        contracts.contains_key(symbol),
    ensures
        fresh_books(contracts, 4).contains_key(contracts[symbol]),
        !fresh_books(contracts, 4)[contracts[symbol]].1.initialized,
        contracts[fresh_books(contracts, 4)[contracts[symbol]].0] == contracts[symbol],
        channels_of(contracts, level, 4).contains(message::channel_name(contracts[symbol], level)),
{
    lemma_contracts(contracts, level, 4, symbol);
}

proof fn lemma_contracts(
    contracts: Map<Symbol, Seq<char>>,
    level: nat,
    n: nat,
    symbol: Symbol,
)
    requires
        contracts.contains_key(symbol),
        symbol.rank() < n <= 4,
    ensures
        fresh_books(contracts, n).contains_key(contracts[symbol]),
        !fresh_books(contracts, n)[contracts[symbol]].1.initialized,
        contracts[fresh_books(contracts, n)[contracts[symbol]].0] == contracts[symbol],
        channels_of(contracts, level, n).contains(message::channel_name(contracts[symbol], level)),
    decreases n,
{
    let last = crate::symbol::all_symbols()[n - 1];
    assert(last.rank() == n - 1);
    let name = message::channel_name(contracts[symbol], level);
    let before = channels_of(contracts, level, (n - 1) as nat);
    let all = channels_of(contracts, level, n);
    if symbol.rank() == n - 1 {
        assert(symbol == last);
        assert(all == before.push(name));
        assert(all[before.len() as int] == name);
    } else {
        lemma_contracts(contracts, level, (n - 1) as nat, symbol);
        let k = choose|k: int| 0 <= k < before.len() && before[k] == name;
        assert(all[k] == name);
    }
}

/// The contract that data is about is the one that it names; only where it names none is it the one
/// that the channel is named after.
pub proof fn law_named_contract_comes_first(env: EdgeXEnvelope, data: DepthData)
    ensures
        data.contract_id matches Some(id) ==> contract_of(env, data) == Some(id@),
        data.contract_id is None ==> (env.channel matches Some(channel) ==> contract_of(env, data)
            == message::contract_id_in(channel@)),
        data.contract_id is None && env.channel is None ==> contract_of(env, data) is None,
{
}

/// The book of a contract whose levels have been taken in is handed on unless the levels that are shown
/// cross. Nothing is counted but the message.
pub proof fn law_levels_are_handed_on_unless_they_cross(
    feed: Feed,
    env: EdgeXEnvelope,
    data: DepthData,
    id: Seq<char>,
    trace: MessageTrace,
    at: Instant,
)
    requires
        env.purpose() == EdgeXMessageKind::Depth,
        env.depth_data() == Some(data),
        contract_of(env, data) == Some(id),
        feed.books.contains_key(id),
        match env.type_of_data() {
            DataType::Snapshot => true,
            DataType::Changed => book_builder::refusal(feed.books[id].1, data) is None,
            DataType::Unknown => !feed.books[id].1.initialized,
        },
    ensures
        ({
            let (after, reaction) = after_message(feed, Incoming::Message(env), trace, at);
            let state = after.books[id].1;
            let cross = feed.depth > 0 && book::overlap(state.bids, state.asks);
            &&& cross ==> reaction is Nothing
            &&& !cross ==> reaction is Emit
            &&& after.counts == (SourceMetrics {
                messages_received: feed.counts.messages_received.wrapping_add(1),
                ..feed.counts
            })
        }),
{
}

/// Levels of a contract that is not kept, and levels that name no contract, change nothing but the
/// count of messages.
pub proof fn law_levels_of_other_contracts_change_nothing(
    feed: Feed,
    env: EdgeXEnvelope,
    data: DepthData,
    trace: MessageTrace,
    at: Instant,
)
    requires
        env.depth_data() == Some(data),
        env.purpose() == EdgeXMessageKind::Depth,
        contract_of(env, data) matches Some(id) ==> !feed.books.contains_key(id),
    ensures
        after_message(feed, Incoming::Message(env), trace, at) == (
            Feed {
                counts: SourceMetrics {
                    messages_received: feed.counts.messages_received.wrapping_add(1),
                    ..feed.counts
                },
                ..feed
            },
            Reacted::Nothing,
        ),
{
}

} // verus!
