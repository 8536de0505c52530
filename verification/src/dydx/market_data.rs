//! The market data of dYdX: what is done on each message.
//!
//! Nothing may be subscribed to before the server has said `connected`. A crossed book is nothing
//! out of the ordinary on this venue: it is counted, and handed on.

use vstd::prelude::*;

use crate::backoff::{Backoff, Progress};
use crate::book;
use crate::book::{BookView, OrderBook, Side};
use crate::by_symbol::BySymbol;
use crate::config::DydxConfig;
use crate::dydx::book_builder;
use crate::dydx::book_builder::{DydxBookBuilder, State};
use crate::dydx::message::{DydxEnvelope, DydxMessageKind, OrderBookContents};
use crate::ladder;
use crate::metrics::{SourceCounters, SourceMetrics};
use crate::source;
use crate::source::{Next, SessionEnd};
use crate::status::{ConnectionState, ConnectionStatus};
use crate::symbol;
use crate::symbol::{Dex, Symbol};
use crate::text;
use crate::time::{Clock, Duration, Instant};
use crate::trace::MessageTrace;
use crate::wire;

verus! {

/// How many levels a side are kept at least.
pub const MAX_TRACKED_LEVELS: usize = 1000;

/// What has come in.
#[derive(Debug)]
pub enum Incoming {
    Message(DydxEnvelope),
    /// A message that could not be read.
    Unreadable,
}

/// What is to be done.
#[derive(Clone, Debug)]
pub enum Reaction {
    Nothing,
    /// The books of the markets are to be subscribed to.
    Subscribe(Vec<String>),
    /// The book of the market is to be subscribed to anew, so that a snapshot comes in.
    Resubscribe(String),
    /// The book is to be handed on.
    Emit(OrderBook),
}

/// What a reaction says.
#[verifier::ext_equal]
pub enum Reacted {
    Nothing,
    Subscribe(Seq<Seq<char>>),
    Resubscribe(Seq<char>),
    Emit(BookView),
}

impl View for Reaction {
    type V = Reacted;

    open spec fn view(&self) -> Reacted {
        match *self {
            Reaction::Nothing => Reacted::Nothing,
            Reaction::Subscribe(markets) => Reacted::Subscribe(text::views(markets@)),
            Reaction::Resubscribe(market) => Reacted::Resubscribe(market@),
            Reaction::Emit(book) => Reacted::Emit(book@),
        }
    }
}

/// What is to be done once the time is known.
#[derive(Clone, Copy, Debug, PartialEq, Eq, Structural)]
pub enum Todo {
    Nothing,
    Subscribe,
    Resubscribe(Symbol),
    Emit(Symbol),
}

/// How far the books of a connection have come.
#[verifier::ext_equal]
pub struct Feed {
    pub counts: SourceMetrics,
    pub status: ConnectionStatus,
    /// Whether the markets have been subscribed to.
    pub subscribed: bool,
    /// How many levels are shown on each side.
    pub depth: nat,
    /// How many levels are kept on each side.
    pub max: nat,
    pub books: Map<Symbol, State>,
}

/// The instrument of the market `id`.
pub open spec fn instrument_of(id: Seq<char>) -> Option<Symbol> {
    if id == Symbol::Btc.dex_name(Dex::Dydx) {
        Some(Symbol::Btc)
    } else if id == Symbol::Eth.dex_name(Dex::Dydx) {
        Some(Symbol::Eth)
    } else if id == Symbol::Sol.dex_name(Dex::Dydx) {
        Some(Symbol::Sol)
    } else if id == Symbol::Hype.dex_name(Dex::Dydx) {
        Some(Symbol::Hype)
    } else {
        None
    }
}

fn find_instrument(id: &str) -> (r: Option<Symbol>)
    ensures
        r == instrument_of(id@),
{
    if text::same_text(id, Symbol::Btc.to_dex_symbol(Dex::Dydx)) {
        Some(Symbol::Btc)
    } else if text::same_text(id, Symbol::Eth.to_dex_symbol(Dex::Dydx)) {
        Some(Symbol::Eth)
    } else if text::same_text(id, Symbol::Sol.to_dex_symbol(Dex::Dydx)) {
        Some(Symbol::Sol)
    } else if text::same_text(id, Symbol::Hype.to_dex_symbol(Dex::Dydx)) {
        Some(Symbol::Hype)
    } else {
        None
    }
}

/// The markets of those of the first `n` instruments that have a book, in canonical order.
pub open spec fn markets_of(books: Map<Symbol, State>, n: nat) -> Seq<Seq<char>>
    decreases n,
{
    if n == 0 {
        Seq::empty()
    } else {
        let before = markets_of(books, (n - 1) as nat);
        let symbol = symbol::all_symbols()[n - 1];
        if books.contains_key(symbol) {
            before.push(symbol.dex_name(Dex::Dydx))
        } else {
            before
        }
    }
}

/// The instrument that a message of levels is about, where its book is kept.
pub open spec fn subject_of(feed: Feed, env: DydxEnvelope) -> Option<Symbol> {
    if env.of_orderbook() && env.levels() is Some {
        match env.id {
            Some(id) => match instrument_of(id@) {
                Some(symbol) => if feed.books.contains_key(symbol) {
                    Some(symbol)
                } else {
                    None
                },
                None => None,
            },
            None => None,
        }
    } else {
        None
    }
}

/// The levels of `symbol` are taken in. The answer to a subscription is the whole book. A change
/// that does not follow on spoils the book: it is dropped and subscribed to anew.
pub open spec fn levels_taken(feed: Feed, env: DydxEnvelope, symbol: Symbol) -> (Feed, Todo) {
    let state = feed.books[symbol];
    let contents = env.levels().unwrap();
    let id = wire::value_of(env.message_id);
    if env.purpose() == DydxMessageKind::Subscribed {
        (
            Feed {
                counts: feed.counts.with_resync(),
                books: feed.books.insert(symbol, book_builder::replaced(contents, id, feed.max)),
                ..feed
            },
            Todo::Emit(symbol),
        )
    } else if book_builder::refusal(state, id) is Some {
        (
            Feed {
                counts: feed.counts.with_sequence_gap(),
                books: feed.books.insert(symbol, book_builder::initial()),
                ..feed
            },
            Todo::Resubscribe(symbol),
        )
    } else {
        (
            Feed {
                books: feed.books.insert(
                    symbol,
                    book_builder::changed(state, contents, id, feed.max),
                ),
                ..feed
            },
            Todo::Emit(symbol),
        )
    }
}

/// A message is taken in.
pub open spec fn taken(feed: Feed, incoming: Incoming) -> (Feed, Todo) {
    let counted = Feed { counts: feed.counts.with_message(), ..feed };
    match incoming {
        Incoming::Unreadable => (
            Feed { counts: counted.counts.with_parse_error(), ..counted },
            Todo::Nothing,
        ),
        Incoming::Message(env) => match env.purpose() {
            DydxMessageKind::Connected => if feed.subscribed {
                (counted, Todo::Nothing)
            } else {
                (Feed { subscribed: true, ..counted }, Todo::Subscribe)
            },
            DydxMessageKind::Subscribed | DydxMessageKind::ChannelData => match subject_of(
                feed,
                env,
            ) {
                Some(symbol) => levels_taken(counted, env, symbol),
                None => (counted, Todo::Nothing),
            },
            _ => (counted, Todo::Nothing),
        },
    }
}

/// The book of `symbol` as it is shown at `at`.
pub open spec fn shown(feed: Feed, symbol: Symbol, trace: MessageTrace, at: Instant) -> BookView {
    BookView {
        dex: Dex::Dydx,
        symbol,
        bids: ladder::first_of(feed.books[symbol].bids, feed.depth),
        asks: ladder::first_of(feed.books[symbol].asks, feed.depth),
        trace: MessageTrace { normalized_instant: Some(at), ..trace },
    }
}

/// What is to be done is done at `at`. A crossed book is counted and handed on.
pub open spec fn done(feed: Feed, todo: Todo, trace: MessageTrace, at: Instant) -> (Feed, Reacted) {
    match todo {
        Todo::Nothing => (feed, Reacted::Nothing),
        Todo::Subscribe => (feed, Reacted::Subscribe(markets_of(feed.books, 4))),
        Todo::Resubscribe(symbol) => (feed, Reacted::Resubscribe(symbol.dex_name(Dex::Dydx))),
        Todo::Emit(symbol) => {
            let book = shown(feed, symbol, trace, at);
            (
                if book.crossed() {
                    Feed { counts: feed.counts.with_crossed_book(), ..feed }
                } else {
                    feed
                },
                Reacted::Emit(book),
            )
        },
    }
}

/// A message has come in.
pub open spec fn after_message(
    feed: Feed,
    incoming: Incoming,
    trace: MessageTrace,
    at: Instant,
) -> (Feed, Reacted) {
    let (after, todo) = taken(feed, incoming);
    done(after, todo, trace, at)
}

/// The books with which a connection starts.
pub open spec fn fresh_books(symbols: Seq<Symbol>) -> Map<Symbol, State> {
    Map::new(|s: Symbol| symbols.contains(s), |s: Symbol| book_builder::initial())
}

/// The market data of dYdX.
pub struct DydxMarketData {
    cfg: DydxConfig,
    state: ConnectionState,
    counters: SourceCounters,
    subscribed: bool,
    depth: usize,
    max_levels: usize,
    builders: BySymbol<DydxBookBuilder>,
}

impl View for DydxMarketData {
    type V = Feed;

    closed spec fn view(&self) -> Feed {
        Feed {
            counts: self.counters@,
            status: self.state@,
            subscribed: self.subscribed,
            depth: self.depth as nat,
            max: self.max_levels as nat,
            books: self.builders@.map_values(|b: DydxBookBuilder| b@),
        }
    }
}

impl DydxMarketData {
    /// Whether every book is in order and is kept under its instrument.
    pub closed spec fn wf(self) -> bool {
        &&& self.max_levels >= 1
        &&& forall|s: Symbol| #[trigger]
            self.builders@.contains_key(s) ==> self.builders@[s].wf()
                && self.builders@[s].symbol_of() == s && self.builders@[s].max()
                == self.max_levels
    }

    /// The configuration.
    pub closed spec fn config_of(self) -> DydxConfig {
        self.cfg
    }

    /// A source that is not connected.
    pub fn new(cfg: DydxConfig) -> (r: DydxMarketData)
        ensures
            r.wf(),
            r.config_of() == cfg,
            r@.counts == SourceMetrics::none(),
            r@.status == ConnectionStatus::Disconnected,
            !r@.subscribed,
            r@.books == Map::<Symbol, State>::empty(),
    {
        let r = DydxMarketData {
            cfg,
            state: ConnectionState::new(),
            counters: SourceCounters::new(),
            subscribed: false,
            depth: 0,
            max_levels: MAX_TRACKED_LEVELS,
            builders: BySymbol::new(),
        };
        proof {
            assert(r@.books =~= Map::<Symbol, State>::empty());
        }
        r
    }

    /// The counts.
    pub fn counters(&self) -> (r: &SourceCounters)
        ensures
            r@ == self@.counts,
    {
        &self.counters
    }

    /// The venue.
    pub fn dex(&self) -> (r: Dex)
        ensures
            r == Dex::Dydx,
    {
        Dex::Dydx
    }

    /// How the connection stands.
    pub fn connection_status(&self) -> (r: ConnectionStatus)
        ensures
            r == self@.status,
    {
        self.state.get()
    }

    /// The counts.
    pub fn metrics(&self) -> (r: SourceMetrics)
        ensures
            r == self@.counts,
    {
        self.counters.snapshot()
    }

    /// The delays between attempts to connect.
    pub fn backoff(&self) -> (r: Backoff)
        ensures
            r.wf(),
            r@ == Progress::of_policy(
                self.config_of().reconnect_base_delay_ms,
                self.config_of().reconnect_max_delay_ms,
                self.config_of().reconnect_max_attempts,
            ),
    {
        let policy = self.cfg.reconnect_policy();
        Backoff::new(policy.base_delay_ms, policy.max_delay_ms, policy.max_attempts)
    }

    /// The address to connect to.
    pub fn url(&self) -> (r: &str)
        ensures
            r@ == if self.config_of().use_testnet {
                self.config_of().testnet_ws_url@
            } else {
                self.config_of().ws_url@
            },
    {
        self.cfg.effective_ws_url()
    }

    /// Whether the server has yet to say that the connection is ready.
    pub fn awaits_connected(&self) -> (r: bool)
        ensures
            r == !self@.subscribed,
    {
        !self.subscribed
    }

    /// How long the server has to say that the connection is ready.
    pub fn connected_timeout(&self) -> (r: Duration)
        ensures
            r.nanos == self.config_of().connected_timeout_secs * 1_000_000_000,
    {
        Duration::from_secs(self.cfg.connected_timeout_secs)
    }

    /// Notes that a connection stands, and starts the books of `symbols` anew. `depth` levels are
    /// shown on each side. Nothing is subscribed to yet.
    pub fn begin_session(&mut self, symbols: &[Symbol], depth: usize, backoff: &mut Backoff)
        requires
            old(self).wf(),
            old(backoff).wf(),
        ensures
            final(self).wf(),
            final(self).config_of() == old(self).config_of(),
            final(backoff).wf(),
            final(backoff)@ == (Progress { attempt: 0, ..old(backoff)@ }),
            final(self)@ == (Feed {
                status: ConnectionStatus::Connected,
                subscribed: false,
                depth: depth as nat,
                max: if depth > MAX_TRACKED_LEVELS {
                    depth as nat
                } else {
                    MAX_TRACKED_LEVELS as nat
                },
                books: fresh_books(symbols@),
                ..old(self)@
            }),
    {
        source::session_started(&mut self.state, backoff);
        self.subscribed = false;
        self.depth = depth;
        self.max_levels = if depth > MAX_TRACKED_LEVELS {
            depth
        } else {
            MAX_TRACKED_LEVELS
        };
        self.builders = BySymbol::new();
        let n: usize = symbols.len();
        let mut i: usize = 0;
        let ghost start = self@;
        proof {
            assert(self@.books =~= fresh_books(symbols@.take(0)));
        }
        while i < n
            invariant
                i <= n,
                n == symbols@.len(),
                self.wf(),
                self.config_of() == old(self).config_of(),
                self@ == (Feed { books: fresh_books(symbols@.take(i as int)), ..start }),
            decreases n - i,
        {
            let symbol = symbols[i];
            let ghost before = self@;
            let builder = DydxBookBuilder::new(symbol, self.max_levels);
            self.builders.set(symbol, builder);
            proof {
                let (few, more) = (symbols@.take(i as int), symbols@.take(i + 1));
                assert(more =~= few.push(symbol));
                assert forall|s: Symbol| more.contains(s) <==> few.contains(s) || s == symbol by {
                    if few.contains(s) {
                        let k = choose|k: int| 0 <= k < few.len() && few[k] == s;
                        assert(more[k] == s);
                    }
                    assert(more[i as int] == symbol);
                }
                assert forall|s: Symbol| #[trigger] self@.books.contains_key(s) implies self@.books[s]
                    == book_builder::initial() && more.contains(s) by {
                    if s != symbol {
                        assert(before.books.contains_key(s));
                        assert(few.contains(s));
                        assert(before.books[s] == self@.books[s]);
                    }
                }
                assert forall|s: Symbol| more.contains(s) implies #[trigger]
                    self@.books.contains_key(s) by {
                    if s != symbol {
                        assert(before.books.contains_key(s));
                    }
                }
                assert(self@.books =~= fresh_books(more));
                assert(self@ =~= Feed { books: self@.books, ..start });
            }
            i += 1;
        }
        proof {
            assert(symbols@.take(n as int) =~= symbols@);
        }
    }

    fn take_message(&mut self, incoming: &Incoming) -> (r: Todo)
        requires
            old(self).wf(),
        ensures
            final(self).wf(),
            final(self).config_of() == old(self).config_of(),
            (final(self)@, r) == taken(old(self)@, *incoming),
            r matches Todo::Emit(symbol) ==> final(self)@.books.contains_key(symbol),
    {
        self.counters.record_message();
        let env = match incoming {
            Incoming::Message(env) => env,
            Incoming::Unreadable => {
                self.counters.record_parse_error();
                return Todo::Nothing;
            },
        };
        match env.message_kind() {
            DydxMessageKind::Connected => {
                if self.subscribed {
                    return Todo::Nothing;
                }
                self.subscribed = true;
                return Todo::Subscribe;
            },
            DydxMessageKind::Subscribed | DydxMessageKind::ChannelData => {},
            _ => return Todo::Nothing,
        }
        self.handle_orderbook(env)
    }

    fn handle_orderbook(&mut self, env: &DydxEnvelope) -> (r: Todo)
        requires
            old(self).wf(),
        ensures
            final(self).wf(),
            final(self).config_of() == old(self).config_of(),
            (final(self)@, r) == match subject_of(old(self)@, *env) {
                Some(symbol) => levels_taken(old(self)@, *env, symbol),
                None => (old(self)@, Todo::Nothing),
            },
            r matches Todo::Emit(symbol) ==> final(self)@.books.contains_key(symbol),
    {
        if !env.is_orderbook() {
            return Todo::Nothing;
        }
        let symbol = match &env.id {
            Some(id) => match find_instrument(id.as_str()) {
                Some(symbol) => symbol,
                None => return Todo::Nothing,
            },
            None => return Todo::Nothing,
        };
        let contents = match env.order_book() {
            Some(contents) => contents,
            None => return Todo::Nothing,
        };
        let mut builder = match self.builders.take(symbol) {
            Some(builder) => builder,
            None => {
                proof {
                    assert(self@.books =~= old(self)@.books);
                    assert(self@ =~= old(self)@);
                }
                return Todo::Nothing;
            },
        };
        let message_id = env.message_id();
        let todo = if matches!(env.message_kind(), DydxMessageKind::Subscribed) {
            builder.apply_snapshot(contents, message_id);
            self.counters.record_resync();
            Todo::Emit(symbol)
        } else if builder.apply_update(contents, message_id).is_err() {
            self.counters.record_sequence_gap();
            builder.reset();
            Todo::Resubscribe(symbol)
        } else {
            Todo::Emit(symbol)
        };
        self.builders.set(symbol, builder);
        proof {
            assert(self@.books =~= old(self)@.books.insert(symbol, builder@));
            assert(self@ =~= levels_taken(old(self)@, *env, symbol).0);
        }
        todo
    }

    fn markets(&self) -> (r: Vec<String>)
        ensures
            text::views(r@) == markets_of(self@.books, 4),
    {
        let all = Symbol::ALL;
        let mut out: Vec<String> = Vec::new();
        let mut i: usize = 0;
        proof {
            assert(all@ =~= symbol::all_symbols());
            assert(text::views(out@) =~= markets_of(self@.books, 0));
        }
        while i < 4
            invariant
                i <= 4,
                all@ == symbol::all_symbols(),
                text::views(out@) == markets_of(self@.books, i as nat),
            decreases 4 - i,
        {
            let symbol = all[i];
            if self.builders.contains(symbol) {
                let ghost before = text::views(out@);
                let market = symbol.to_dex_symbol(Dex::Dydx).to_owned();
                out.push(market);
                proof {
                    assert(text::views(out@) =~= before.push(market@));
                }
            }
            proof {
                assert(self@.books.contains_key(symbol) == self.builders@.contains_key(symbol));
                assert(markets_of(self@.books, (i + 1) as nat) == if self@.books.contains_key(
                    symbol,
                ) {
                    markets_of(self@.books, i as nat).push(symbol.dex_name(Dex::Dydx))
                } else {
                    markets_of(self@.books, i as nat)
                });
            }
            i += 1;
        }
        out
    }

    fn act(&mut self, todo: Todo, trace: MessageTrace, at: Instant) -> (r: Reaction)
        requires
            old(self).wf(),
            todo matches Todo::Emit(symbol) ==> old(self)@.books.contains_key(symbol),
        ensures
            final(self).wf(),
            final(self).config_of() == old(self).config_of(),
            (final(self)@, r@) == done(old(self)@, todo, trace, at),
            r matches Reaction::Emit(book) ==> book.fault_but_crossing() is None,
    {
        match todo {
            Todo::Nothing => Reaction::Nothing,
            Todo::Subscribe => Reaction::Subscribe(self.markets()),
            Todo::Resubscribe(symbol) => Reaction::Resubscribe(
                symbol.to_dex_symbol(Dex::Dydx).to_owned(),
            ),
            Todo::Emit(symbol) => match self.builders.get(symbol) {
                Some(builder) => {
                    let book = builder.order_book_at(self.depth, trace, at);
                    proof {
                        assert(book@ =~= shown(self@, symbol, trace, at));
                    }
                    if book.is_crossed() {
                        self.counters.record_crossed_book();
                    }
                    Reaction::Emit(book)
                },
                None => Reaction::Nothing,
            },
        }
    }

    /// Takes in a message; `at` is the time at which that is done.
    pub fn on_message_at(&mut self, incoming: &Incoming, trace: MessageTrace, at: Instant) -> (r:
        Reaction)
        requires
            old(self).wf(),
        ensures
            final(self).wf(),
            final(self).config_of() == old(self).config_of(),
            (final(self)@, r@) == after_message(old(self)@, *incoming, trace, at),
            r matches Reaction::Emit(book) ==> book.fault_but_crossing() is None,
    {
        let todo = self.take_message(incoming);
        self.act(todo, trace, at)
    }

    /// Takes in a message.
    pub fn on_message(&mut self, incoming: &Incoming, trace: MessageTrace, clock: &Clock) -> (r:
        Reaction)
        requires
            old(self).wf(),
        ensures
            final(self).wf(),
            final(self).config_of() == old(self).config_of(),
            exists|at: Instant|
                (final(self)@, r@) == #[trigger] after_message(old(self)@, *incoming, trace, at),
            r matches Reaction::Emit(book) ==> book.fault_but_crossing() is None,
    {
        let todo = self.take_message(incoming);
        let at = clock.now();
        let r = self.act(todo, trace, at);
        proof {
            assert((self@, r@) == after_message(old(self)@, *incoming, trace, at));
        }
        r
    }

    /// Notes that a book was handed on.
    pub fn book_sent(&mut self)
        requires
            old(self).wf(),
        ensures
            final(self).wf(),
            final(self).config_of() == old(self).config_of(),
            final(self)@ == (Feed { counts: old(self)@.counts.with_book(), ..old(self)@ }),
    {
        self.counters.record_book();
    }

    /// Decides how to go on after a connection has ended.
    pub fn end_session(&mut self, backoff: &mut Backoff, end: SessionEnd) -> (r: Next)
        requires
            old(self).wf(),
            old(backoff).wf(),
        ensures
            final(self).wf(),
            final(self).config_of() == old(self).config_of(),
            final(self)@ == (Feed { status: final(self)@.status, ..old(self)@ }),
            source::went_on(old(backoff)@, end, final(self)@.status, final(backoff)@, r),
            final(backoff).wf(),
    {
        source::after_session(&mut self.state, backoff, end)
    }
}

/// Nothing is subscribed to before the server has said `connected`, and on one connection the
/// markets are subscribed to once.
pub proof fn law_subscribes_once_after_connected(
    feed: Feed,
    incoming: Incoming,
    trace: MessageTrace,
    at: Instant,
)
    ensures
        after_message(feed, incoming, trace, at).1 is Subscribe <==> !feed.subscribed && (
        incoming matches Incoming::Message(env) && env.purpose() == DydxMessageKind::Connected),
        after_message(feed, incoming, trace, at).1 is Subscribe ==> after_message(
            feed,
            incoming,
            trace,
            at,
        ).0.subscribed,
        feed.subscribed ==> after_message(feed, incoming, trace, at).0.subscribed,
{
}

/// A crossed book is handed on like any other and counted.
pub proof fn law_crossed_books_are_counted_and_kept(
    feed: Feed,
    incoming: Incoming,
    trace: MessageTrace,
    at: Instant,
)
    ensures
        ({
            let (before, todo) = taken(feed, incoming);
            let (after, reaction) = after_message(feed, incoming, trace, at);
            todo is Emit ==> (reaction matches Reacted::Emit(book) && after.counts == if book.crossed() {
                before.counts.with_crossed_book()
            } else {
                before.counts
            })
        }),
{
}

/// The answer to a subscription leaves nothing of the book before: the state after it depends on
/// the message alone.
pub proof fn law_snapshot_replaces_the_book(
    feed: Feed,
    other: Feed,
    env: DydxEnvelope,
    symbol: Symbol,
    trace: MessageTrace,
    at: Instant,
)
    requires
        env.purpose() == DydxMessageKind::Subscribed,
        subject_of(feed, env) == Some(symbol),
        subject_of(other, env) == Some(symbol),
        feed.max == other.max,
    ensures
        after_message(feed, Incoming::Message(env), trace, at).0.books[symbol] == after_message(
            other,
            Incoming::Message(env),
            trace,
            at,
        ).0.books[symbol],
{
}

/// Whether every book of the feed is in order.
pub open spec fn in_order(feed: Feed) -> bool {
    forall|symbol: Symbol| #[trigger]
        feed.books.contains_key(symbol) ==> {
            let s = feed.books[symbol];
            &&& ladder::best_first(Side::Bid, s.bids) && book::all_positive(s.bids)
            &&& ladder::best_first(Side::Ask, s.asks) && book::all_positive(s.asks)
        }
}

proof fn lemma_names_differ()
    ensures
        forall|a: Symbol, b: Symbol| #[trigger]
            a.dex_name(Dex::Dydx) == #[trigger] b.dex_name(Dex::Dydx) ==> a == b,
{
    assert forall|a: Symbol, b: Symbol| #[trigger]
        a.dex_name(Dex::Dydx) == #[trigger] b.dex_name(Dex::Dydx) implies a == b by {
        symbol::law_dex_symbols_are_distinct(Dex::Dydx, a, b, a.dex_name(Dex::Dydx));
    }
}

/// The levels of a message go into the book of its market and into no other. The answer to a
/// subscription is listed anew; a change that is the next message is made to the book that was
/// there; any other change empties the book and asks for it anew.
pub proof fn law_levels_go_into_the_book_of_their_market(
    feed: Feed,
    env: DydxEnvelope,
    contents: OrderBookContents,
    id: String,
    symbol: Symbol,
    trace: MessageTrace,
    at: Instant,
)
    requires
        in_order(feed),
        env.purpose() == DydxMessageKind::Subscribed || env.purpose()
            == DydxMessageKind::ChannelData,
        env.of_orderbook(),
        env.levels() == Some(contents),
        env.id == Some(id),
        id@ == symbol.dex_name(Dex::Dydx),
        feed.books.contains_key(symbol),
    ensures
        ({
            let (after, reaction) = after_message(feed, Incoming::Message(env), trace, at);
            let (old_state, new_state) = (feed.books[symbol], after.books[symbol]);
            let (bids, asks) = (ladder::pairs(contents.bids@), ladder::pairs(contents.asks@));
            let whole = env.purpose() == DydxMessageKind::Subscribed;
            let place = wire::value_of(env.message_id);
            let follows = old_state.initialized && match (old_state.last_message_id, place) {
                (Some(last), Some(got)) => got == if last == u64::MAX {
                    0
                } else {
                    last + 1
                },
                _ => true,
            };
            &&& in_order(after)
            &&& after.books.dom() == feed.books.dom()
            &&& forall|other: Symbol|
                other != symbol && feed.books.contains_key(other) ==> #[trigger] after.books[other]
                    == feed.books[other]
            &&& if whole {
                &&& ladder::is_listing(Side::Bid, bids, new_state.bids, feed.max)
                &&& ladder::is_listing(Side::Ask, asks, new_state.asks, feed.max)
                &&& new_state.last_message_id == place
                &&& after.counts.resyncs == feed.counts.resyncs.wrapping_add(1)
            } else if follows {
                &&& ladder::is_update(Side::Bid, old_state.bids, bids, new_state.bids, feed.max)
                &&& ladder::is_update(Side::Ask, old_state.asks, asks, new_state.asks, feed.max)
                &&& place is Some ==> new_state.last_message_id == place
                &&& place is None ==> new_state.last_message_id == old_state.last_message_id
                &&& after.counts.resyncs == feed.counts.resyncs
            } else {
                &&& new_state.bids.len() == 0 && new_state.asks.len() == 0
                &&& !new_state.initialized
                &&& after.counts.sequence_gaps == feed.counts.sequence_gaps.wrapping_add(1)
                &&& reaction == Reacted::Resubscribe(id@)
            }
            &&& after.counts.messages_received == feed.counts.messages_received.wrapping_add(1)
            &&& after.counts.parse_errors == feed.counts.parse_errors
            &&& (whole || follows) ==> {
                &&& new_state.initialized
                &&& after.counts.sequence_gaps == feed.counts.sequence_gaps
                &&& reaction matches Reacted::Emit(book) && book.dex == Dex::Dydx && book.symbol
                    == symbol && ladder::is_top(new_state.bids, feed.depth, book.bids)
                    && ladder::is_top(new_state.asks, feed.depth, book.asks)
                    && book.trace == (MessageTrace { normalized_instant: Some(at), ..trace })
                    && after.counts.crossed_books == if book.crossed() {
                    feed.counts.crossed_books.wrapping_add(1)
                } else {
                    feed.counts.crossed_books
                }
            }
        }),
{
    lemma_names_differ();
    let place = wire::value_of(env.message_id);
    book_builder::law_snapshot_shows_its_quotes(contents, place, feed.max);
    book_builder::law_change_settles_what_it_names(feed.books[symbol], contents, place, feed.max);
    let after = after_message(feed, Incoming::Message(env), trace, at).0;
    assert(instrument_of(id@) == Some(symbol));
    assert(after.books.dom() =~= feed.books.dom());
    assert forall|other: Symbol| #[trigger] after.books.contains_key(other) implies {
        let s = after.books[other];
        &&& ladder::best_first(Side::Bid, s.bids) && book::all_positive(s.bids)
        &&& ladder::best_first(Side::Ask, s.asks) && book::all_positive(s.asks)
    } by {
        assert(feed.books.contains_key(other));
    }
}

/// A message without levels, of another channel, or about a market that is not kept changes nothing
/// but the count of messages, unless it is the first `connected`; one that cannot be read is counted
/// as such.
pub proof fn law_other_messages_change_nothing(
    feed: Feed,
    env: DydxEnvelope,
    trace: MessageTrace,
    at: Instant,
)
    requires
        env.levels() is None || !env.of_orderbook() || env.id is None || (env.purpose()
            != DydxMessageKind::Subscribed && env.purpose() != DydxMessageKind::ChannelData),
        feed.subscribed || env.purpose() != DydxMessageKind::Connected,
    ensures
        after_message(feed, Incoming::Message(env), trace, at) == (
            Feed {
                counts: SourceMetrics {
                    messages_received: feed.counts.messages_received.wrapping_add(1),
                    ..feed.counts
                },
                ..feed
            },
            Reacted::Nothing,
        ),
        after_message(feed, Incoming::Unreadable, trace, at) == (
            Feed {
                counts: SourceMetrics {
                    messages_received: feed.counts.messages_received.wrapping_add(1),
                    parse_errors: feed.counts.parse_errors.wrapping_add(1),
                    ..feed.counts
                },
                ..feed
            },
            Reacted::Nothing,
        ),
{
}

/// Once the server has said `connected`, the market of every instrument that is kept is subscribed
/// to, and no other.
pub proof fn law_every_kept_market_is_subscribed_to(
    feed: Feed,
    incoming: Incoming,
    trace: MessageTrace,
    at: Instant,
    symbol: Symbol,
)
    ensures
        after_message(feed, incoming, trace, at).1 matches Reacted::Subscribe(markets) ==> (
        markets.contains(symbol.dex_name(Dex::Dydx)) <==> feed.books.contains_key(symbol)),
{
    lemma_markets(feed.books, 4, symbol);
}

proof fn lemma_markets(books: Map<Symbol, State>, n: nat, symbol: Symbol)
    requires
        n <= 4,
    ensures
        markets_of(books, n).contains(symbol.dex_name(Dex::Dydx)) <==> books.contains_key(symbol)
            && symbol.rank() < n,
    decreases n,
{
    let name = symbol.dex_name(Dex::Dydx);
    if n > 0 {
        lemma_markets(books, (n - 1) as nat, symbol);
        lemma_names_differ();
        let before = markets_of(books, (n - 1) as nat);
        let last = symbol::all_symbols()[n - 1];
        assert(last.rank() == n - 1);
        let all = markets_of(books, n);
        if books.contains_key(last) {
            assert(all == before.push(last.dex_name(Dex::Dydx)));
            assert(all[before.len() as int] == last.dex_name(Dex::Dydx));
            if before.contains(name) {
                let k = choose|k: int| 0 <= k < before.len() && before[k] == name;
                assert(all[k] == name);
            }
            if all.contains(name) && !before.contains(name) {
                let k = choose|k: int| 0 <= k < all.len() && all[k] == name;
                assert(k == before.len() || before[k] == name);
            }
        }
    }
}

/// A market is that of an instrument exactly where it has the name that the venue gives it.
pub proof fn law_markets_are_called_by_name(id: Seq<char>, symbol: Symbol)
    ensures
        instrument_of(id) == Some(symbol) <==> id == symbol.dex_name(Dex::Dydx),
{
    lemma_names_differ();
}

/// Levels of a market that is not kept change nothing but the count of messages.
pub proof fn law_levels_of_other_markets_change_nothing(
    feed: Feed,
    env: DydxEnvelope,
    id: String,
    trace: MessageTrace,
    at: Instant,
)
    requires
        env.purpose() == DydxMessageKind::Subscribed || env.purpose()
            == DydxMessageKind::ChannelData,
        env.id == Some(id),
        forall|symbol: Symbol|
            feed.books.contains_key(symbol) ==> id@ != #[trigger] symbol.dex_name(Dex::Dydx),
    ensures
        after_message(feed, Incoming::Message(env), trace, at) == (
            Feed {
                counts: SourceMetrics {
                    messages_received: feed.counts.messages_received.wrapping_add(1),
                    ..feed.counts
                },
                ..feed
            },
            Reacted::Nothing,
        ),
{
    lemma_names_differ();
    if instrument_of(id@) is Some {
        let symbol = instrument_of(id@).unwrap();
        law_markets_are_called_by_name(id@, symbol);
        assert(id@ == symbol.dex_name(Dex::Dydx));
    }
}

} // verus!
