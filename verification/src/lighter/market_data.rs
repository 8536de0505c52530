//! The market data of Lighter: what is done on each message.
//!
//! The statistics of all markets say under which index an instrument is traded; its book is
//! subscribed to as soon as that is known. They also carry the funding rates, which are handed on
//! without a connection of their own.

use std::collections::HashMap;

use vstd::prelude::*;

use crate::backoff::{Backoff, Progress};
use crate::book;
use crate::book::{BookView, OrderBook, Side};
use crate::by_symbol::BySymbol;
use crate::config::LighterConfig;
use crate::decimal::{Decimal, Overflow};
use crate::funding::FundingRate;
use crate::ladder;
use crate::lighter::book_builder;
use crate::lighter::book_builder::{LighterBookBuilder, State};
use crate::lighter::message;
use crate::lighter::message::{
    LighterEnvelope, LighterMessageKind, MarketStatsEntry, OrderBookPayload, Stats, UpdateKind,
};
use crate::metrics::{SourceCounters, SourceMetrics};
use crate::num::{Price, Quantity};
use crate::source;
use crate::source::{ChannelState, FundingChannel, MarketDataError, Next, SendResult, SessionEnd};
use crate::status::{ConnectionState, ConnectionStatus};
use crate::symbol;
use crate::symbol::{Dex, Symbol};
use crate::text;
use crate::time::{Clock, Duration, Instant};
use crate::trace::MessageTrace;
use crate::wire;

verus! {

/// How many levels a side are kept at least.
pub const MAX_TRACKED_LEVELS: usize = 1000;

/// What has come in.
#[derive(Debug)]
pub enum Incoming {
    Message(LighterEnvelope),
    /// A message that could not be read.
    Unreadable,
}

/// What is to be done.
#[derive(Clone, Debug)]
pub enum Reaction {
    Nothing,
    /// A pong is to be sent.
    Pong,
    /// The rates are to be handed on, and the channels to be subscribed to.
    Stats { rates: Vec<FundingRate>, channels: Vec<String> },
    /// The channel is to be subscribed to anew, so that a snapshot comes in.
    Resubscribe(String),
    /// The book is to be handed on.
    Emit(OrderBook),
}

/// What a reaction says.
#[verifier::ext_equal]
pub enum Reacted {
    Nothing,
    Pong,
    Stats { rates: Seq<FundingRate>, channels: Seq<Seq<char>> },
    Resubscribe(Seq<char>),
    Emit(BookView),
}

impl View for Reaction {
    type V = Reacted;

    open spec fn view(&self) -> Reacted {
        match *self {
            Reaction::Nothing => Reacted::Nothing,
            Reaction::Pong => Reacted::Pong,
            Reaction::Stats { rates, channels } => Reacted::Stats {
                rates: rates@,
                channels: text::views(channels@),
            },
            Reaction::Resubscribe(channel) => Reacted::Resubscribe(channel@),
            Reaction::Emit(book) => Reacted::Emit(book@),
        }
    }
}

/// What a reaction says, where its numbers can be expressed.
pub open spec fn seen(r: Result<Reaction, Overflow>) -> Result<Reacted, Overflow> {
    match r {
        Ok(reaction) => Ok(reaction@),
        Err(e) => Err(e),
    }
}

/// What is to be done once the time is known.
#[derive(Debug)]
enum Todo {
    Nothing,
    Pong,
    Stats { entries: Vec<MarketStatsEntry>, channels: Vec<String> },
    Resubscribe(u32),
    Emit(u32),
}

/// What is to be done once the time is known.
#[verifier::ext_equal]
pub enum Task {
    Nothing,
    Pong,
    Stats { entries: Seq<Stats>, channels: Seq<Seq<char>> },
    Resubscribe(u32),
    Emit(u32),
}

impl View for Todo {
    type V = Task;

    closed spec fn view(&self) -> Task {
        match *self {
            Todo::Nothing => Task::Nothing,
            Todo::Pong => Task::Pong,
            Todo::Stats { entries, channels } => Task::Stats {
                entries: message::all_stats(entries@),
                channels: text::views(channels@),
            },
            Todo::Resubscribe(index) => Task::Resubscribe(index),
            Todo::Emit(index) => Task::Emit(index),
        }
    }
}

/// How far the books of a connection have come. A book is kept under the index of its market.
#[verifier::ext_equal]
pub struct Feed {
    pub counts: SourceMetrics,
    pub status: ConnectionStatus,
    pub funding: ChannelState,
    /// Whether funding rates are handed on.
    pub collects: bool,
    /// The interval of funding, in hours, where it is configured. The venue does not give it.
    pub interval_hours: Option<Decimal>,
    /// How many levels are shown on each side.
    pub depth: nat,
    /// How many levels are kept on each side.
    pub max: nat,
    /// The instruments that are collected.
    pub targets: Set<Symbol>,
    /// The indices that are known.
    pub indices: Map<Symbol, u32>,
    pub books: Map<u32, (Symbol, State)>,
}

impl Feed {
    /// The instrument of `name`, where it is collected.
    pub open spec fn target(self, name: Seq<char>) -> Option<Symbol> {
        match Symbol::called(Dex::Lighter, name) {
            Some(symbol) => if self.targets.contains(symbol) {
                Some(symbol)
            } else {
                None
            },
            None => None,
        }
    }

    /// The feed with `state` as the book of the market `index`.
    pub open spec fn with_book_state(self, index: u32, state: State) -> Feed {
        Feed { books: self.books.insert(index, (self.books[index].0, state)), ..self }
    }
}

/// The name of the channel of the book of a market.
pub open spec fn channel_of(index: u32) -> Seq<char> {
    "order_book:"@ + text::digits(index as nat)
}

/// The index of one market is taken in: says whether its book is to be subscribed to, which it is
/// where the index is new. Where it has changed, the book under the old one is dropped.
pub open spec fn index_taken(feed: Feed, stats: Stats) -> (Feed, bool) {
    match feed.target(stats.symbol) {
        Some(symbol) => {
            let index = stats.market_id;
            if feed.indices.contains_key(symbol) && feed.indices[symbol] == index {
                (feed, false)
            } else {
                let kept = if feed.indices.contains_key(symbol) {
                    feed.books.remove(feed.indices[symbol])
                } else {
                    feed.books
                };
                (
                    Feed {
                        indices: feed.indices.insert(symbol, index),
                        books: kept.insert(index, (symbol, book_builder::initial())),
                        ..feed
                    },
                    true,
                )
            }
        },
        None => (feed, false),
    }
}

/// The indices of the markets are taken in, one after the other: says which channels are to be
/// subscribed to.
pub open spec fn indices_taken(feed: Feed, entries: Seq<Stats>) -> (Feed, Seq<Seq<char>>)
    decreases entries.len(),
{
    if entries.len() == 0 {
        (feed, Seq::empty())
    } else {
        let (before, channels) = indices_taken(feed, entries.drop_last());
        let (after, new) = index_taken(before, entries.last());
        (
            after,
            if new {
                channels.push(channel_of(entries.last().market_id))
            } else {
                channels
            },
        )
    }
}

/// The funding rate of one market, where it is collected, somebody takes it and there is one. The
/// current rate comes first; where there is none the other rate takes its place, and there is no
/// forecast then.
pub open spec fn rate_of(
    feed: Feed,
    stats: Stats,
    exchange_ts_ms: Option<u64>,
    trace: MessageTrace,
    at: Instant,
) -> Result<Option<FundingRate>, Overflow> {
    match feed.target(stats.symbol) {
        Some(symbol) => if !feed.collects || !feed.funding.registered || (
        stats.current_funding_rate is None && stats.funding_rate is None) {
            Ok(None)
        } else {
            match stats.volume_outcome() {
                Ok(volume_24h_usd) => Ok(
                    Some(
                        FundingRate {
                            dex: Dex::Lighter,
                            symbol,
                            current_rate: if stats.current_funding_rate is Some {
                                stats.current_funding_rate.unwrap()
                            } else {
                                stats.funding_rate.unwrap()
                            },
                            predicted_rate: if stats.current_funding_rate is Some {
                                stats.funding_rate
                            } else {
                                None
                            },
                            interval_hours: feed.interval_hours,
                            next_funding_time_ms: stats.next_funding_time_ms,
                            index_price: priced(stats.index_price),
                            mark_price: priced(stats.mark_price),
                            open_interest: match stats.open_interest {
                                Some(n) => Some(Quantity(n)),
                                None => None,
                            },
                            volume_24h_usd,
                            trace: MessageTrace {
                                exchange_ts_ms,
                                normalized_instant: Some(at),
                                ..trace
                            },
                        },
                    ),
                ),
                Err(e) => Err(e),
            }
        },
        None => Ok(None),
    }
}

/// `n` as a price.
pub open spec fn priced(n: Option<Decimal>) -> Option<Price> {
    match n {
        Some(n) => Some(Price(n)),
        None => None,
    }
}

/// The funding rates of the markets, in their order.
pub open spec fn rates_of(
    feed: Feed,
    entries: Seq<Stats>,
    exchange_ts_ms: Option<u64>,
    trace: MessageTrace,
    at: Instant,
) -> Result<Seq<FundingRate>, Overflow>
    decreases entries.len(),
{
    if entries.len() == 0 {
        Ok(Seq::empty())
    } else {
        match rates_of(feed, entries.drop_last(), exchange_ts_ms, trace, at) {
            Ok(rates) => match rate_of(feed, entries.last(), exchange_ts_ms, trace, at) {
                Ok(Some(rate)) => Ok(rates.push(rate)),
                Ok(None) => Ok(rates),
                Err(e) => Err(e),
            },
            Err(e) => Err(e),
        }
    }
}

/// Whether the levels are the whole book or a change: what the message says, or else the whole book
/// where there is none yet.
pub open spec fn update_of(env: LighterEnvelope, state: State) -> UpdateKind {
    match env.stated_update() {
        Some(kind) => kind,
        None => if state.initialized {
            UpdateKind::Update
        } else {
            UpdateKind::Snapshot
        },
    }
}

/// The levels of the market `index`, whose book is kept, are taken in. A change that does not follow
/// on spoils the book: it is dropped and subscribed to anew.
pub open spec fn levels_taken(
    feed: Feed,
    env: LighterEnvelope,
    payload: OrderBookPayload,
    index: u32,
) -> (Feed, Task) {
    let state = feed.books[index].1;
    let time_ms = wire::value_of(env.last_updated_at);
    match update_of(env, state) {
        UpdateKind::Snapshot => (
            Feed {
                counts: feed.counts.with_resync(),
                ..feed.with_book_state(
                    index,
                    book_builder::replaced(payload, env.nonce_value(), time_ms, feed.max),
                )
            },
            Task::Emit(index),
        ),
        UpdateKind::Update => if book_builder::refusal(state, env.begin_nonce_value()) is Some {
            (
                Feed {
                    counts: feed.counts.with_sequence_gap(),
                    ..feed.with_book_state(index, book_builder::initial())
                },
                Task::Resubscribe(index),
            )
        } else {
            (
                feed.with_book_state(
                    index,
                    book_builder::changed(state, payload, env.nonce_value(), time_ms, feed.max),
                ),
                Task::Emit(index),
            )
        },
    }
}

/// The index of the market that the message names.
pub open spec fn index_of(env: LighterEnvelope) -> Option<u32> {
    match env.channel {
        Some(channel) => message::index_in(channel@),
        None => None,
    }
}

/// A message is taken in.
pub open spec fn taken(feed: Feed, incoming: Incoming) -> (Feed, Task) {
    let counted = Feed { counts: feed.counts.with_message(), ..feed };
    match incoming {
        Incoming::Unreadable => (
            Feed { counts: counted.counts.with_parse_error(), ..counted },
            Task::Nothing,
        ),
        Incoming::Message(env) => match env.purpose() {
            LighterMessageKind::Ping => (counted, Task::Pong),
            LighterMessageKind::MarketStats => match env.market_stats {
                Some(stats) => {
                    let entries = message::stats_in(stats, message::MAX_NESTING as nat);
                    let (after, channels) = indices_taken(counted, entries);
                    (after, Task::Stats { entries, channels })
                },
                None => (counted, Task::Nothing),
            },
            LighterMessageKind::OrderBook => match (index_of(env), env.order_book) {
                (Some(index), Some(payload)) => if feed.books.contains_key(index) {
                    levels_taken(counted, env, payload, index)
                } else {
                    (counted, Task::Nothing)
                },
                _ => (counted, Task::Nothing),
            },
            _ => (counted, Task::Nothing),
        },
    }
}

/// When the venue made the message.
pub open spec fn time_of(incoming: Incoming) -> Option<u64> {
    match incoming {
        Incoming::Message(env) => wire::value_of(env.last_updated_at),
        Incoming::Unreadable => None,
    }
}

/// The book of the market `index` as it is shown at `at`.
pub open spec fn shown(feed: Feed, index: u32, trace: MessageTrace, at: Instant) -> BookView {
    let (symbol, state) = feed.books[index];
    BookView {
        dex: Dex::Lighter,
        symbol,
        bids: ladder::first_of(state.bids, feed.depth),
        asks: ladder::first_of(state.asks, feed.depth),
        trace: MessageTrace {
            exchange_ts_ms: state.exchange_ts_ms,
            normalized_instant: Some(at),
            ..trace
        },
    }
}

/// What is to be done is done at `at`. A crossed book is not handed on and counts as a message that
/// could not be read.
pub open spec fn done(
    feed: Feed,
    task: Task,
    exchange_ts_ms: Option<u64>,
    trace: MessageTrace,
    at: Instant,
) -> (Feed, Result<Reacted, Overflow>) {
    match task {
        Task::Nothing => (feed, Ok(Reacted::Nothing)),
        Task::Pong => (feed, Ok(Reacted::Pong)),
        Task::Stats { entries, channels } => (
            feed,
            match rates_of(feed, entries, exchange_ts_ms, trace, at) {
                Ok(rates) => Ok(Reacted::Stats { rates, channels }),
                Err(e) => Err(e),
            },
        ),
        Task::Resubscribe(index) => (feed, Ok(Reacted::Resubscribe(channel_of(index)))),
        Task::Emit(index) => {
            let book = shown(feed, index, trace, at);
            if book.crossed() {
                (
                    Feed { counts: feed.counts.with_parse_error(), ..feed },
                    Ok(Reacted::Nothing),
                )
            } else {
                (feed, Ok(Reacted::Emit(book)))
            }
        },
    }
}

/// A message has come in.
pub open spec fn after_message(
    feed: Feed,
    incoming: Incoming,
    trace: MessageTrace,
    at: Instant,
) -> (Feed, Result<Reacted, Overflow>) {
    let (after, task) = taken(feed, incoming);
    done(after, task, time_of(incoming), trace, at)
}

/// The market data of Lighter.
pub struct LighterMarketData {
    cfg: LighterConfig,
    state: ConnectionState,
    counters: SourceCounters,
    funding: FundingChannel,
    collect_funding: bool,
    funding_interval_hours: Option<Decimal>,
    depth: usize,
    max_levels: usize,
    targets: BySymbol<bool>,
    mapping: BySymbol<u32>,
    builders: HashMap<u32, LighterBookBuilder>,
}

impl View for LighterMarketData {
    type V = Feed;

    closed spec fn view(&self) -> Feed {
        Feed {
            counts: self.counters@,
            status: self.state@,
            funding: self.funding@,
            collects: self.collect_funding,
            interval_hours: self.funding_interval_hours,
            depth: self.depth as nat,
            max: self.max_levels as nat,
            targets: self.targets@.dom(),
            indices: self.mapping@,
            books: self.builders@.map_values(|b: LighterBookBuilder| (b.symbol_of(), b@)),
        }
    }
}

impl LighterMarketData {
    /// Whether every book is in order.
    pub closed spec fn wf(self) -> bool {
        &&& self.max_levels >= 1
        &&& forall|index: u32| #[trigger]
            self.builders@.contains_key(index) ==> self.builders@[index].wf()
                && self.builders@[index].max() == self.max_levels
    }

    /// The configuration.
    pub closed spec fn config_of(self) -> LighterConfig {
        self.cfg
    }

    /// A source that is not connected and hands on no funding rates.
    pub fn new(cfg: LighterConfig) -> (r: LighterMarketData)
        ensures
            r.wf(),
            r.config_of() == cfg,
            r@.counts == SourceMetrics::none(),
            r@.status == ConnectionStatus::Disconnected,
            r@.funding == (ChannelState { registered: false, published: 0, dropped: 0 }),
            !r@.collects,
            r@.interval_hours is None,
            r@.targets == Set::<Symbol>::empty(),
            r@.indices == Map::<Symbol, u32>::empty(),
            r@.books == Map::<u32, (Symbol, State)>::empty(),
    {
        let r = LighterMarketData {
            cfg,
            state: ConnectionState::new(),
            counters: SourceCounters::new(),
            funding: FundingChannel::new(),
            collect_funding: false,
            funding_interval_hours: None,
            depth: 0,
            max_levels: MAX_TRACKED_LEVELS,
            targets: BySymbol::new(),
            mapping: BySymbol::new(),
            builders: HashMap::new(),
        };
        proof {
            assert(r@.targets =~= Set::<Symbol>::empty());
            assert(r@.books =~= Map::<u32, (Symbol, State)>::empty());
        }
        r
    }

    /// The source with funding rates handed on or not, and with the interval of funding, in hours,
    /// where it is configured. No subscription and no connection comes with it.
    pub fn with_funding(self, enabled: bool, interval_hours: Option<Decimal>) -> (r:
        LighterMarketData)
        requires
            self.wf(),
        ensures
            r.wf(),
            r.config_of() == self.config_of(),
            r@ == (Feed { collects: enabled, interval_hours, ..self@ }),
    {
        let mut r = self;
        r.collect_funding = enabled;
        r.funding_interval_hours = interval_hours;
        r
    }

    /// The counts.
    pub fn counters(&self) -> (r: &SourceCounters)
        ensures
            r@ == self@.counts,
    {
        &self.counters
    }

    /// Who takes the funding rates.
    pub fn funding_channel(&self) -> (r: &FundingChannel)
        ensures
            r@ == self@.funding,
    {
        &self.funding
    }

    /// The venue.
    pub fn dex(&self) -> (r: Dex)
        ensures
            r == Dex::Lighter,
    {
        Dex::Lighter
    }

    /// How the connection stands.
    pub fn connection_status(&self) -> (r: ConnectionStatus)
        ensures
            r == self@.status,
    {
        self.state.get()
    }

    /// The counts.
    pub fn metrics(&self) -> (r: SourceMetrics)
        ensures
            r == self@.counts,
    {
        self.counters.snapshot()
    }

    /// The delays between attempts to connect.
    pub fn backoff(&self) -> (r: Backoff)
        ensures
            r.wf(),
            r@ == Progress::of_policy(
                self.config_of().reconnect_base_delay_ms,
                self.config_of().reconnect_max_delay_ms,
                self.config_of().reconnect_max_attempts,
            ),
    {
        let policy = self.cfg.reconnect_policy();
        Backoff::new(policy.base_delay_ms, policy.max_delay_ms, policy.max_attempts)
    }

    /// The address to connect to.
    pub fn url(&self) -> (r: &str)
        ensures
            r@ == if self.config_of().use_testnet {
                self.config_of().testnet_ws_url@
            } else {
                self.config_of().ws_url@
            },
    {
        self.cfg.effective_ws_url()
    }

    /// The span between two pings: from one second to 110, since the venue cuts a connection on
    /// which nothing is sent for two minutes.
    pub fn keepalive_interval(&self) -> (r: Duration)
        ensures
            r.nanos == 1_000_000_000 * if self.config_of().keepalive_interval_secs < 1 {
                1
            } else if self.config_of().keepalive_interval_secs > 110 {
                110
            } else {
                self.config_of().keepalive_interval_secs as int
            },
    {
        let secs: u64 = self.cfg.keepalive_interval_secs;
        Duration::from_secs(
            if secs < 1 {
                1
            } else if secs > 110 {
                110
            } else {
                secs
            },
        )
    }

    /// The span after which instruments without a known index are worth a warning.
    pub fn mapping_warn_after(&self) -> (r: Duration)
        ensures
            r.nanos == self.config_of().mapping_warn_secs * 1_000_000_000,
    {
        Duration::from_secs(self.cfg.mapping_warn_secs)
    }

    /// The instruments that are collected and have no known index, in canonical order.
    pub fn unresolved(&self) -> (r: Vec<Symbol>)
        ensures
            r@ == symbol::all_symbols().filter(
                |s: Symbol| self@.targets.contains(s) && !self@.indices.contains_key(s),
            ),
    {
        let all = Symbol::ALL;
        let ghost open = |s: Symbol| self@.targets.contains(s) && !self@.indices.contains_key(s);
        let mut out: Vec<Symbol> = Vec::new();
        let mut i: usize = 0;
        proof {
            reveal(Seq::filter);
            assert(all@ =~= symbol::all_symbols());
            assert(all@.take(0).filter(open) =~= Seq::<Symbol>::empty());
        }
        while i < 4
            invariant
                i <= 4,
                all@ == symbol::all_symbols(),
                open == (|s: Symbol|
                    self@.targets.contains(s) && !self@.indices.contains_key(s)),
                out@ == all@.take(i as int).filter(open),
            decreases 4 - i,
        {
            proof {
                reveal(Seq::filter);
                assert(all@.take(i + 1).drop_last() =~= all@.take(i as int));
                assert(all@.take(i + 1).last() == all@[i as int]);
            }
            let symbol = all[i];
            if self.targets.contains(symbol) && !self.mapping.contains(symbol) {
                out.push(symbol);
            }
            i += 1;
        }
        proof {
            assert(all@.take(4) =~= all@);
        }
        out
    }

    /// Notes that a connection stands, and starts anew with the instruments `symbols`: the channel
    /// of the statistics of all markets is to be subscribed to. `depth` levels are shown on each
    /// side.
    pub fn begin_session(&mut self, symbols: &[Symbol], depth: usize, backoff: &mut Backoff)
        requires
            old(self).wf(),
            old(backoff).wf(),
        ensures
            final(self).wf(),
            final(self).config_of() == old(self).config_of(),
            final(backoff).wf(),
            final(backoff)@ == (Progress { attempt: 0, ..old(backoff)@ }),
            final(self)@ == (Feed {
                status: ConnectionStatus::Connected,
                depth: depth as nat,
                max: if depth > MAX_TRACKED_LEVELS {
                    depth as nat
                } else {
                    MAX_TRACKED_LEVELS as nat
                },
                targets: symbols@.to_set(),
                indices: Map::empty(),
                books: Map::empty(),
                ..old(self)@
            }),
    {
        source::session_started(&mut self.state, backoff);
        self.depth = depth;
        self.max_levels = if depth > MAX_TRACKED_LEVELS {
            depth
        } else {
            MAX_TRACKED_LEVELS
        };
        self.targets = BySymbol::new();
        self.mapping = BySymbol::new();
        self.builders = HashMap::new();
        let n: usize = symbols.len();
        let mut i: usize = 0;
        let ghost start = self@;
        proof {
            assert(self@.books =~= Map::empty());
            assert(self@.targets =~= symbols@.take(0).to_set());
        }
        while i < n
            invariant
                i <= n,
                n == symbols@.len(),
                self.wf(),
                self.config_of() == old(self).config_of(),
                self@ == (Feed { targets: symbols@.take(i as int).to_set(), ..start }),
            decreases n - i,
        {
            let ghost before = self@;
            self.targets.set(symbols[i], true);
            proof {
                let (few, more) = (symbols@.take(i as int), symbols@.take(i + 1));
                assert(more =~= few.push(symbols@[i as int]));
                assert forall|s: Symbol| more.contains(s) <==> few.contains(s) || s
                    == symbols@[i as int] by {
                    if few.contains(s) {
                        let k = choose|k: int| 0 <= k < few.len() && few[k] == s;
                        assert(more[k] == s);
                    }
                    assert(more[i as int] == symbols@[i as int]);
                }
                assert(self@.targets =~= more.to_set());
                assert(self@ =~= Feed { targets: self@.targets, ..start });
            }
            i += 1;
        }
        proof {
            assert(symbols@.take(n as int) =~= symbols@);
        }
    }

    fn take_index(&mut self, entry: &MarketStatsEntry) -> (r: bool)
        requires
            old(self).wf(),
        ensures
            final(self).wf(),
            final(self).config_of() == old(self).config_of(),
            (final(self)@, r) == index_taken(old(self)@, entry@),
    {
        broadcast use vstd::std_specs::hash::group_hash_axioms;

        let index: u32 = entry.market_id;
        let symbol = match Symbol::from_dex_symbol(Dex::Lighter, entry.symbol.as_str()) {
            Some(symbol) => symbol,
            None => return false,
        };
        if !self.targets.contains(symbol) {
            return false;
        }
        if let Some(existing) = self.mapping.get(symbol) {
            let existing: u32 = *existing;
            if existing == index {
                return false;
            }
            let _ = self.builders.remove(&existing);
        }
        let ghost kept = self@.books;
        proof {
            assert(kept =~= if old(self)@.indices.contains_key(symbol) {
                old(self)@.books.remove(old(self)@.indices[symbol])
            } else {
                old(self)@.books
            });
        }
        self.mapping.set(symbol, index);
        let builder = LighterBookBuilder::new(symbol, index, self.max_levels);
        self.builders.insert(index, builder);
        proof {
            assert(self@.books =~= kept.insert(index, (symbol, book_builder::initial())));
            assert(self@ =~= index_taken(old(self)@, entry@).0);
        }
        true
    }

    fn handle_market_stats(&mut self, entries: &Vec<MarketStatsEntry>) -> (r: Vec<String>)
        requires
            old(self).wf(),
        ensures
            final(self).wf(),
            final(self).config_of() == old(self).config_of(),
            (final(self)@, text::views(r@)) == indices_taken(
                old(self)@,
                message::all_stats(entries@),
            ),
    {
        let n: usize = entries.len();
        let mut channels: Vec<String> = Vec::new();
        let mut i: usize = 0;
        let ghost all = message::all_stats(entries@);
        proof {
            assert(text::views(channels@) =~= Seq::<Seq<char>>::empty());
        }
        while i < n
            invariant
                i <= n,
                n == entries@.len(),
                all == message::all_stats(entries@),
                self.wf(),
                self.config_of() == old(self).config_of(),
                (self@, text::views(channels@)) == indices_taken(old(self)@, all.take(i as int)),
            decreases n - i,
        {
            let ghost before = text::views(channels@);
            proof {
                assert(all.take(i + 1).drop_last() =~= all.take(i as int));
                assert(all.take(i + 1).last() == entries@[i as int]@);
            }
            if self.take_index(&entries[i]) {
                let channel = message::order_book_channel(entries[i].market_id);
                channels.push(channel);
                proof {
                    assert(text::views(channels@) =~= before.push(channel@));
                }
            }
            i += 1;
        }
        proof {
            assert(all.take(n as int) =~= all);
        }
        channels
    }

    fn handle_order_book(&mut self, env: &LighterEnvelope) -> (r: Todo)
        requires
            old(self).wf(),
        ensures
            final(self).wf(),
            final(self).config_of() == old(self).config_of(),
            (final(self)@, r@) == match (index_of(*env), env.order_book) {
                (Some(index), Some(payload)) => if old(self)@.books.contains_key(index) {
                    levels_taken(old(self)@, *env, payload, index)
                } else {
                    (old(self)@, Task::Nothing)
                },
                _ => (old(self)@, Task::Nothing),
            },
            r@ matches Task::Emit(index) ==> final(self)@.books.contains_key(index),
    {
        broadcast use vstd::std_specs::hash::group_hash_axioms;

        let index: u32 = match env.market_index() {
            Some(index) => index,
            None => return Todo::Nothing,
        };
        let payload = match &env.order_book {
            Some(payload) => payload,
            None => return Todo::Nothing,
        };
        let mut builder = match self.builders.remove(&index) {
            Some(builder) => builder,
            None => {
                proof {
                    assert(self@.books =~= old(self)@.books);
                    assert(self@ =~= old(self)@);
                }
                return Todo::Nothing;
            },
        };
        let ghost symbol = builder.symbol_of();
        let kind = match env.update_kind() {
            Some(kind) => kind,
            None => if builder.is_initialized() {
                UpdateKind::Update
            } else {
                UpdateKind::Snapshot
            },
        };
        let todo = match kind {
            UpdateKind::Snapshot => {
                builder.apply_snapshot(payload, env.nonce(), env.exchange_ts_ms());
                self.counters.record_resync();
                Todo::Emit(index)
            },
            UpdateKind::Update => {
                if builder.apply_update(
                    payload,
                    env.begin_nonce(),
                    env.nonce(),
                    env.exchange_ts_ms(),
                ).is_err() {
                    self.counters.record_sequence_gap();
                    builder.reset();
                    Todo::Resubscribe(index)
                } else {
                    Todo::Emit(index)
                }
            },
        };
        self.builders.insert(index, builder);
        proof {
            assert(self@.books =~= old(self)@.books.insert(index, (symbol, builder@)));
            assert(self@ =~= levels_taken(old(self)@, *env, *payload, index).0);
        }
        todo
    }

    fn take_message(&mut self, incoming: &Incoming) -> (r: Todo)
        requires
            old(self).wf(),
        ensures
            final(self).wf(),
            final(self).config_of() == old(self).config_of(),
            (final(self)@, r@) == taken(old(self)@, *incoming),
            r@ matches Task::Emit(index) ==> final(self)@.books.contains_key(index),
    {
        self.counters.record_message();
        let env = match incoming {
            Incoming::Message(env) => env,
            Incoming::Unreadable => {
                self.counters.record_parse_error();
                return Todo::Nothing;
            },
        };
        match env.message_kind() {
            LighterMessageKind::Ping => Todo::Pong,
            LighterMessageKind::MarketStats => match &env.market_stats {
                Some(stats) => {
                    let entries = message::collect_market_stats(stats);
                    let channels = self.handle_market_stats(&entries);
                    Todo::Stats { entries, channels }
                },
                None => Todo::Nothing,
            },
            LighterMessageKind::OrderBook => self.handle_order_book(env),
            _ => Todo::Nothing,
        }
    }

    fn funding_rate(
        &self,
        entry: &MarketStatsEntry,
        exchange_ts_ms: Option<u64>,
        trace: MessageTrace,
        at: Instant,
    ) -> (r: Result<Option<FundingRate>, Overflow>)
        ensures
            r == rate_of(self@, entry@, exchange_ts_ms, trace, at),
    {
        let symbol = match Symbol::from_dex_symbol(Dex::Lighter, entry.symbol.as_str()) {
            Some(symbol) => symbol,
            None => return Ok(None),
        };
        if !self.targets.contains(symbol) {
            return Ok(None);
        }
        if !self.collect_funding || !self.funding.is_registered() {
            return Ok(None);
        }
        let (current_rate, predicted_rate) = match (
            entry.current_funding_rate,
            entry.funding_rate,
        ) {
            (Some(current), other) => (current, other),
            (None, Some(other)) => (other, None),
            (None, None) => return Ok(None),
        };
        let volume_24h_usd = entry.checked_volume_24h_usd()?;
        let mut trace = trace;
        trace.set_exchange_ts_ms(exchange_ts_ms);
        trace.mark_normalized_at(at);
        Ok(
            Some(
                FundingRate {
                    dex: Dex::Lighter,
                    symbol,
                    current_rate,
                    predicted_rate,
                    interval_hours: self.funding_interval_hours,
                    next_funding_time_ms: entry.next_funding_time_ms,
                    index_price: as_price(entry.index_price),
                    mark_price: as_price(entry.mark_price),
                    open_interest: match entry.open_interest {
                        Some(n) => Some(Quantity(n)),
                        None => None,
                    },
                    volume_24h_usd,
                    trace,
                },
            ),
        )
    }

    fn funding_rates(
        &self,
        entries: &Vec<MarketStatsEntry>,
        exchange_ts_ms: Option<u64>,
        trace: MessageTrace,
        at: Instant,
    ) -> (r: Result<Vec<FundingRate>, Overflow>)
        ensures
            r is Ok <==> rates_of(
                self@,
                message::all_stats(entries@),
                exchange_ts_ms,
                trace,
                at,
            ) is Ok,
            r matches Ok(rates) ==> rates_of(
                self@,
                message::all_stats(entries@),
                exchange_ts_ms,
                trace,
                at,
            ) == Ok::<Seq<FundingRate>, Overflow>(rates@),
    {
        let n: usize = entries.len();
        let mut out: Vec<FundingRate> = Vec::new();
        let mut i: usize = 0;
        let ghost all = message::all_stats(entries@);
        proof {
            assert(out@ =~= Seq::<FundingRate>::empty());
        }
        while i < n
            invariant
                i <= n,
                n == entries@.len(),
                all == message::all_stats(entries@),
                rates_of(self@, all.take(i as int), exchange_ts_ms, trace, at) == Ok::<
                    Seq<FundingRate>,
                    Overflow,
                >(out@),
            decreases n - i,
        {
            proof {
                assert(all.take(i + 1).drop_last() =~= all.take(i as int));
                assert(all.take(i + 1).last() == entries@[i as int]@);
            }
            match self.funding_rate(&entries[i], exchange_ts_ms, trace, at) {
                Ok(Some(rate)) => {
                    out.push(rate);
                },
                Ok(None) => {},
                Err(e) => {
                    proof {
                        lemma_failed_prefix(self@, all, i + 1, exchange_ts_ms, trace, at);
                    }
                    return Err(e);
                },
            }
            i += 1;
        }
        proof {
            assert(all.take(n as int) =~= all);
        }
        Ok(out)
    }

    fn act(&mut self, todo: Todo, incoming: &Incoming, trace: MessageTrace, at: Instant) -> (r:
        Result<Reaction, Overflow>)
        requires
            old(self).wf(),
            todo@ matches Task::Emit(index) ==> old(self)@.books.contains_key(index),
        ensures
            final(self).wf(),
            final(self).config_of() == old(self).config_of(),
            (final(self)@, seen(r)) == done(old(self)@, todo@, time_of(*incoming), trace, at),
            r matches Ok(Reaction::Emit(book)) ==> book.fault() is None,
    {
        broadcast use vstd::std_specs::hash::group_hash_axioms;

        match todo {
            Todo::Nothing => Ok(Reaction::Nothing),
            Todo::Pong => Ok(Reaction::Pong),
            Todo::Stats { entries, channels } => {
                let exchange_ts_ms = match incoming {
                    Incoming::Message(env) => env.exchange_ts_ms(),
                    Incoming::Unreadable => None,
                };
                let rates = self.funding_rates(&entries, exchange_ts_ms, trace, at)?;
                Ok(Reaction::Stats { rates, channels })
            },
            Todo::Resubscribe(index) => Ok(
                Reaction::Resubscribe(message::order_book_channel(index)),
            ),
            Todo::Emit(index) => match self.builders.get(&index) {
                Some(builder) => {
                    let book = builder.order_book_at(self.depth, trace, at);
                    proof {
                        assert(book@ =~= shown(self@, index, trace, at));
                    }
                    if book.is_crossed() {
                        self.counters.record_parse_error();
                        return Ok(Reaction::Nothing);
                    }
                    Ok(Reaction::Emit(book))
                },
                None => Ok(Reaction::Nothing),
            },
        }
    }

    /// Takes in a message; `at` is the time at which that is done. Fails where the volume of a
    /// market cannot be expressed.
    pub fn on_message_at(&mut self, incoming: &Incoming, trace: MessageTrace, at: Instant) -> (r:
        Result<Reaction, Overflow>)
        requires
            old(self).wf(),
        ensures
            final(self).wf(),
            final(self).config_of() == old(self).config_of(),
            (final(self)@, seen(r)) == after_message(old(self)@, *incoming, trace, at),
            r matches Ok(Reaction::Emit(book)) ==> book.fault() is None,
    {
        let todo = self.take_message(incoming);
        self.act(todo, incoming, trace, at)
    }

    /// Takes in a message. Fails where the volume of a market cannot be expressed.
    pub fn on_message(&mut self, incoming: &Incoming, trace: MessageTrace, clock: &Clock) -> (r:
        Result<Reaction, Overflow>)
        requires
            old(self).wf(),
        ensures
            final(self).wf(),
            final(self).config_of() == old(self).config_of(),
            exists|at: Instant|
                (final(self)@, seen(r)) == #[trigger] after_message(
                    old(self)@,
                    *incoming,
                    trace,
                    at,
                ),
            r matches Ok(Reaction::Emit(book)) ==> book.fault() is None,
    {
        let todo = self.take_message(incoming);
        let at = clock.now();
        let r = self.act(todo, incoming, trace, at);
        proof {
            assert((self@, seen(r)) == after_message(old(self)@, *incoming, trace, at));
        }
        r
    }

    /// Notes that a book was handed on.
    pub fn book_sent(&mut self)
        requires
            old(self).wf(),
        ensures
            final(self).wf(),
            final(self).config_of() == old(self).config_of(),
            final(self)@ == (Feed { counts: old(self)@.counts.with_book(), ..old(self)@ }),
    {
        self.counters.record_book();
    }

    /// Notes that somebody takes the funding rates; refused where none are handed on.
    pub fn subscribe_funding(&mut self) -> (r: Result<(), MarketDataError>)
        requires
            old(self).wf(),
        ensures
            final(self).wf(),
            final(self).config_of() == old(self).config_of(),
            r is Ok <==> old(self)@.collects,
            final(self)@ == if old(self)@.collects {
                Feed {
                    funding: ChannelState { registered: true, ..old(self)@.funding },
                    ..old(self)@
                }
            } else {
                old(self)@
            },
            r matches Err(e) ==> e matches MarketDataError::Config(s) && s@
                == "ファンディング収集が無効です（with_funding を確認してください）"@,
    {
        if !self.collect_funding {
            return Err(
                MarketDataError::Config(
                    "ファンディング収集が無効です（with_funding を確認してください）".to_owned(),
                ),
            );
        }
        self.funding.register();
        Ok(())
    }

    /// Notes that nobody takes the funding rates any more.
    pub fn unsubscribe_funding(&mut self)
        requires
            old(self).wf(),
        ensures
            final(self).wf(),
            final(self).config_of() == old(self).config_of(),
            final(self)@ == (Feed {
                funding: ChannelState { registered: false, ..old(self)@.funding },
                ..old(self)@
            }),
    {
        self.funding.clear();
    }

    /// Notes what became of a funding rate, and says whether it went through.
    pub fn rate_sent(&mut self, result: SendResult) -> (r: bool)
        requires
            old(self).wf(),
        ensures
            final(self).wf(),
            final(self).config_of() == old(self).config_of(),
            r == (old(self)@.funding.registered && result is Sent),
            final(self)@ == (Feed {
                funding: source::after_rate(old(self)@.funding, result),
                ..old(self)@
            }),
    {
        self.funding.publish(result)
    }

    /// Decides how to go on after a connection has ended.
    pub fn end_session(&mut self, backoff: &mut Backoff, end: SessionEnd) -> (r: Next)
        requires
            old(self).wf(),
            old(backoff).wf(),
        ensures
            final(self).wf(),
            final(self).config_of() == old(self).config_of(),
            final(self)@ == (Feed { status: final(self)@.status, ..old(self)@ }),
            source::went_on(old(backoff)@, end, final(self)@.status, final(backoff)@, r),
            final(backoff).wf(),
    {
        source::after_session(&mut self.state, backoff, end)
    }
}

fn as_price(n: Option<Decimal>) -> (r: Option<Price>)
    ensures
        r == priced(n),
{
    match n {
        Some(n) => Some(Price(n)),
        None => None,
    }
}

proof fn lemma_failed_prefix(
    feed: Feed,
    entries: Seq<Stats>,
    n: int,
    exchange_ts_ms: Option<u64>,
    trace: MessageTrace,
    at: Instant,
)
    requires
        0 <= n <= entries.len(),
        rates_of(feed, entries.take(n), exchange_ts_ms, trace, at) is Err,
    ensures
        rates_of(feed, entries, exchange_ts_ms, trace, at) is Err,
    decreases entries.len() - n,
{
    if n < entries.len() {
        assert(entries.take(n + 1).drop_last() =~= entries.take(n));
        lemma_failed_prefix(feed, entries, n + 1, exchange_ts_ms, trace, at);
    } else {
        assert(entries.take(n) =~= entries);
    }
}

/// After the statistics of a collected market have been taken in, its index is known and its book
/// is kept under it; the same statistics again change nothing.
pub proof fn law_indices_follow_the_statistics(feed: Feed, stats: Stats)
    requires
        feed.target(stats.symbol) is Some,
    ensures
        ({
            let symbol = feed.target(stats.symbol).unwrap();
            let (after, _) = index_taken(feed, stats);
            &&& after.indices.contains_key(symbol)
            &&& after.indices[symbol] == stats.market_id
            &&& index_taken(after, stats) == (after, false)
        }),
{
}

/// Where an instrument gets another index, its old book is dropped and the new one waits for a
/// snapshot.
pub proof fn law_changed_index_starts_a_new_book(feed: Feed, stats: Stats)
    requires
        feed.target(stats.symbol) matches Some(symbol) && feed.indices.contains_key(symbol)
            && feed.indices[symbol] != stats.market_id,
    ensures
        ({
            let symbol = feed.target(stats.symbol).unwrap();
            let (after, new) = index_taken(feed, stats);
            &&& new
            &&& !after.books.contains_key(feed.indices[symbol])
            &&& after.books[stats.market_id] == (symbol, book_builder::initial())
        }),
{
}

/// Funding rates are handed on only where they are collected and somebody takes them.
pub proof fn law_rates_need_a_taker(
    feed: Feed,
    entries: Seq<Stats>,
    exchange_ts_ms: Option<u64>,
    trace: MessageTrace,
    at: Instant,
)
    requires
        !feed.collects || !feed.funding.registered,
    ensures
        rates_of(feed, entries, exchange_ts_ms, trace, at) == Ok::<Seq<FundingRate>, Overflow>(
            Seq::empty(),
        ),
    decreases entries.len(),
{
    if entries.len() > 0 {
        law_rates_need_a_taker(feed, entries.drop_last(), exchange_ts_ms, trace, at);
    }
}

/// Whether every book of the feed is in order.
pub open spec fn in_order(feed: Feed) -> bool {
    forall|index: u32| #[trigger]
        feed.books.contains_key(index) ==> {
            let s = feed.books[index].1;
            &&& ladder::best_first(Side::Bid, s.bids) && book::all_positive(s.bids)
            &&& ladder::best_first(Side::Ask, s.asks) && book::all_positive(s.asks)
        }
}

/// The levels of a message go into the book of its market and into no other. A whole book is listed
/// anew; a change that follows on is made to the book that was there; any other change empties the
/// book and asks for it anew.
pub proof fn law_levels_go_into_the_book_of_their_market(
    feed: Feed,
    env: LighterEnvelope,
    payload: OrderBookPayload,
    index: u32,
    trace: MessageTrace,
    at: Instant,
)
    requires
        in_order(feed),
        env.purpose() == LighterMessageKind::OrderBook,
        index_of(env) == Some(index),
        env.order_book == Some(payload),
        feed.books.contains_key(index),
    ensures
        ({
            let (after, reaction) = after_message(feed, Incoming::Message(env), trace, at);
            let (old_state, new_state) = (feed.books[index].1, after.books[index].1);
            let (bids, asks) = (ladder::pairs(payload.bids@), ladder::pairs(payload.asks@));
            let whole = env.stated_update() == Some(UpdateKind::Snapshot) || (env.stated_update()
                is None && !old_state.initialized);
            let follows = old_state.initialized && (old_state.last_nonce is None
                || env.begin_nonce_value() is None || old_state.last_nonce
                == env.begin_nonce_value());
            &&& in_order(after)
            &&& after.books.dom() == feed.books.dom()
            &&& after.books[index].0 == feed.books[index].0
            &&& after.indices == feed.indices
            &&& forall|other: u32|
                other != index && feed.books.contains_key(other) ==> #[trigger] after.books[other]
                    == feed.books[other]
            &&& if whole {
                &&& ladder::is_listing(Side::Bid, bids, new_state.bids, feed.max)
                &&& ladder::is_listing(Side::Ask, asks, new_state.asks, feed.max)
                &&& new_state.last_nonce == env.nonce_value()
                &&& new_state.exchange_ts_ms == wire::value_of(env.last_updated_at)
                &&& after.counts.resyncs == feed.counts.resyncs.wrapping_add(1)
            } else if follows {
                &&& ladder::is_update(Side::Bid, old_state.bids, bids, new_state.bids, feed.max)
                &&& ladder::is_update(Side::Ask, old_state.asks, asks, new_state.asks, feed.max)
                &&& env.nonce_value() is Some ==> new_state.last_nonce == env.nonce_value()
                &&& env.nonce_value() is None ==> new_state.last_nonce == old_state.last_nonce
                &&& wire::value_of(env.last_updated_at) is Some ==> new_state.exchange_ts_ms
                    == wire::value_of(env.last_updated_at)
                &&& wire::value_of(env.last_updated_at) is None ==> new_state.exchange_ts_ms
                    == old_state.exchange_ts_ms
                &&& after.counts.resyncs == feed.counts.resyncs
            } else {
                &&& new_state.bids.len() == 0 && new_state.asks.len() == 0
                &&& !new_state.initialized
                &&& after.counts.sequence_gaps == feed.counts.sequence_gaps.wrapping_add(1)
                &&& reaction == Ok::<Reacted, Overflow>(
                    Reacted::Resubscribe("order_book:"@ + text::digits(index as nat)),
                )
            }
            &&& after.counts.messages_received == feed.counts.messages_received.wrapping_add(1)
            &&& (whole || follows) ==> {
                &&& new_state.initialized
                &&& after.counts.sequence_gaps == feed.counts.sequence_gaps
                &&& reaction == Ok::<Reacted, Overflow>(Reacted::Nothing) || reaction matches Ok(
                    Reacted::Emit(_),
                )
            }
        }),
{
    let s = feed.books[index].1;
    let time_ms = wire::value_of(env.last_updated_at);
    book_builder::law_snapshot_shows_its_quotes(payload, env.nonce_value(), time_ms, feed.max);
    book_builder::law_change_settles_what_it_names(
        s,
        payload,
        env.nonce_value(),
        time_ms,
        feed.max,
    );
    let after = after_message(feed, Incoming::Message(env), trace, at).0;
    assert(after.books.dom() =~= feed.books.dom());
    assert forall|other: u32| #[trigger] after.books.contains_key(other) implies {
        let s = after.books[other].1;
        &&& ladder::best_first(Side::Bid, s.bids) && book::all_positive(s.bids)
        &&& ladder::best_first(Side::Ask, s.asks) && book::all_positive(s.asks)
    } by {
        assert(feed.books.contains_key(other));
    }
}

/// A book that is handed on shows the best levels of the market that the message is about, as many as
/// are asked for, and the venue's time; it is not crossed. Where the levels that would be shown cross,
/// nothing is handed on and the message counts as unreadable.
pub proof fn law_handed_on_book_is_the_top_of_the_market(
    feed: Feed,
    env: LighterEnvelope,
    index: u32,
    trace: MessageTrace,
    at: Instant,
)
    requires
        env.purpose() == LighterMessageKind::OrderBook,
        index_of(env) == Some(index),
    ensures
        ({
            let (after, reaction) = after_message(feed, Incoming::Message(env), trace, at);
            let (symbol, state) = after.books[index];
            reaction matches Ok(Reacted::Emit(book)) ==> {
                &&& book.dex == Dex::Lighter
                &&& book.symbol == symbol
                &&& ladder::is_top(state.bids, feed.depth, book.bids)
                &&& ladder::is_top(state.asks, feed.depth, book.asks)
                &&& !book.crossed()
                &&& book.trace.exchange_ts_ms == state.exchange_ts_ms
                &&& book.trace.normalized_instant == Some(at)
                &&& book.trace.received_instant == trace.received_instant
                &&& book.trace.received_wall_ms == trace.received_wall_ms
                &&& after.counts.parse_errors == feed.counts.parse_errors
            }
        }),
{
}

/// A funding rate that is handed on is that of its market: the current rate where the message gives
/// one, with the other rate as the forecast; or else the other rate, without a forecast. Every figure
/// that comes with it is the one of the message.
pub proof fn law_rates_keep_their_meaning(
    feed: Feed,
    stats: Stats,
    exchange_ts_ms: Option<u64>,
    trace: MessageTrace,
    at: Instant,
)
    ensures
        rate_of(feed, stats, exchange_ts_ms, trace, at) matches Ok(Some(rate)) ==> {
            &&& rate.dex == Dex::Lighter
            &&& feed.target(stats.symbol) == Some(rate.symbol)
            &&& feed.collects && feed.funding.registered
            &&& stats.current_funding_rate matches Some(current) ==> rate.current_rate == current
                && rate.predicted_rate == stats.funding_rate
            &&& stats.current_funding_rate is None ==> stats.funding_rate == Some(rate.current_rate)
                && rate.predicted_rate is None
            &&& rate.interval_hours == feed.interval_hours
            &&& rate.next_funding_time_ms == stats.next_funding_time_ms
            &&& rate.index_price is Some <==> stats.index_price is Some
            &&& rate.index_price matches Some(p) ==> stats.index_price == Some(p.0)
            &&& rate.mark_price is Some <==> stats.mark_price is Some
            &&& rate.mark_price matches Some(p) ==> stats.mark_price == Some(p.0)
            &&& rate.open_interest is Some <==> stats.open_interest is Some
            &&& rate.open_interest matches Some(q) ==> stats.open_interest == Some(q.0)
            &&& stats.volume_outcome() == Ok::<Option<Decimal>, Overflow>(rate.volume_24h_usd)
            &&& rate.trace.exchange_ts_ms == exchange_ts_ms
            &&& rate.trace.normalized_instant == Some(at)
            &&& rate.trace.received_instant == trace.received_instant
            &&& rate.trace.received_wall_ms == trace.received_wall_ms
        },
{
}

/// A rate is handed on wherever the market is collected, rates are collected and taken, and the
/// message has one of the two rates: only a volume that cannot be expressed stands in the way.
pub proof fn law_every_rate_is_handed_on(
    feed: Feed,
    stats: Stats,
    exchange_ts_ms: Option<u64>,
    trace: MessageTrace,
    at: Instant,
)
    ensures
        feed.target(stats.symbol) is Some && feed.collects && feed.funding.registered && (
        stats.current_funding_rate is Some || stats.funding_rate is Some)
            && stats.volume_outcome() is Ok <==> rate_of(
            feed,
            stats,
            exchange_ts_ms,
            trace,
            at,
        ) matches Ok(Some(_)),
{
}

/// The rates of a list of markets are those of its parts, one behind the other: none is left out, and
/// none comes twice, however long the list is.
pub proof fn law_rates_of_parts_stand_one_behind_the_other(
    feed: Feed,
    first: Seq<Stats>,
    second: Seq<Stats>,
    exchange_ts_ms: Option<u64>,
    trace: MessageTrace,
    at: Instant,
)
    ensures
        rates_of(feed, first + second, exchange_ts_ms, trace, at) == match (
            rates_of(feed, first, exchange_ts_ms, trace, at),
            rates_of(feed, second, exchange_ts_ms, trace, at),
        ) {
            (Ok(a), Ok(b)) => Ok(a + b),
            _ => Err(Overflow),
        },
    decreases second.len(),
{
    let all = first + second;
    if second.len() == 0 {
        assert(all =~= first);
        if let Ok(a) = rates_of(feed, first, exchange_ts_ms, trace, at) {
            assert(a + Seq::<FundingRate>::empty() =~= a);
        }
    } else {
        assert(all.drop_last() =~= first + second.drop_last());
        assert(all.last() == second.last());
        law_rates_of_parts_stand_one_behind_the_other(
            feed,
            first,
            second.drop_last(),
            exchange_ts_ms,
            trace,
            at,
        );
        match (
            rates_of(feed, first, exchange_ts_ms, trace, at),
            rates_of(feed, second.drop_last(), exchange_ts_ms, trace, at),
            rate_of(feed, second.last(), exchange_ts_ms, trace, at),
        ) {
            (Ok(a), Ok(b), Ok(Some(rate))) => {
                assert((a + b).push(rate) =~= a + b.push(rate));
            },
            _ => {},
        }
    }
}

/// The rates of one market are its rate, where it has one.
pub proof fn law_rates_of_one_market(
    feed: Feed,
    stats: Stats,
    exchange_ts_ms: Option<u64>,
    trace: MessageTrace,
    at: Instant,
)
    ensures
        rates_of(feed, seq![stats], exchange_ts_ms, trace, at) == match rate_of(
            feed,
            stats,
            exchange_ts_ms,
            trace,
            at,
        ) {
            Ok(Some(rate)) => Ok(seq![rate]),
            Ok(None) => Ok(Seq::empty()),
            Err(e) => Err(e),
        },
{
    reveal_with_fuel(rates_of, 2);
    assert(seq![stats].drop_last().len() == 0);
    if let Ok(Some(rate)) = rate_of(feed, stats, exchange_ts_ms, trace, at) {
        assert(Seq::<FundingRate>::empty().push(rate) =~= seq![rate]);
    }
}

/// The indices of a list of markets are taken in as those of its parts, one after the other, and the
/// channels of all of them are asked for.
pub proof fn law_indices_are_taken_in_turn(feed: Feed, first: Seq<Stats>, second: Seq<Stats>)
    ensures
        ({
            let (between, some) = indices_taken(feed, first);
            let (after, others) = indices_taken(between, second);
            indices_taken(feed, first + second) == (after, some + others)
        }),
    decreases second.len(),
{
    let all = first + second;
    let (between, some) = indices_taken(feed, first);
    if second.len() == 0 {
        assert(all =~= first);
        assert(some + Seq::<Seq<char>>::empty() =~= some);
    } else {
        assert(all.drop_last() =~= first + second.drop_last());
        assert(all.last() == second.last());
        law_indices_are_taken_in_turn(feed, first, second.drop_last());
        let (_, others) = indices_taken(between, second.drop_last());
        let channel = channel_of(second.last().market_id);
        assert((some + others).push(channel) =~= some + others.push(channel));
    }
}

/// A market is asked for exactly where it is collected and its index is new, under the channel of that
/// index; a market that is not collected changes nothing.
pub proof fn law_new_index_is_asked_for(feed: Feed, stats: Stats)
    ensures
        ({
            let (after, channels) = indices_taken(feed, seq![stats]);
            match feed.target(stats.symbol) {
                Some(symbol) => {
                    let known = feed.indices.contains_key(symbol) && feed.indices[symbol]
                        == stats.market_id;
                    &&& channels == if known {
                        Seq::empty()
                    } else {
                        seq!["order_book:"@ + text::digits(stats.market_id as nat)]
                    }
                    &&& known ==> after == feed
                    &&& !known ==> after.books.contains_key(stats.market_id)
                        && after.books[stats.market_id].0 == symbol
                        && !after.books[stats.market_id].1.initialized
                    &&& after.indices == feed.indices.insert(symbol, stats.market_id)
                },
                None => after == feed && channels.len() == 0,
            }
        }),
{
    reveal_with_fuel(indices_taken, 2);
    assert(seq![stats].drop_last().len() == 0);
    let (after, channels) = indices_taken(feed, seq![stats]);
    if let Some(symbol) = feed.target(stats.symbol) {
        assert(after.indices =~= feed.indices.insert(symbol, stats.market_id));
    }
    assert(channels =~= if index_taken(feed, stats).1 {
        seq![channel_of(stats.market_id)]
    } else {
        Seq::empty()
    });
}

/// A message of statistics hands on the rates of its markets and asks for the channels of the new
/// ones; no book and no count but that of messages changes through its rates.
pub proof fn law_statistics_give_rates_and_channels(
    feed: Feed,
    env: LighterEnvelope,
    stats: crate::json::Json,
    trace: MessageTrace,
    at: Instant,
)
    requires
        env.purpose() == LighterMessageKind::MarketStats,
        env.market_stats == Some(stats),
    ensures
        ({
            let entries = message::stats_in(stats, message::MAX_NESTING as nat);
            let (after, reaction) = after_message(feed, Incoming::Message(env), trace, at);
            let counted = Feed { counts: after.counts, ..feed };
            let time_ms = wire::value_of(env.last_updated_at);
            &&& after.counts == feed.counts.with_message()
            &&& after == indices_taken(counted, entries).0
            &&& match reaction {
                Ok(Reacted::Stats { rates, channels }) => rates_of(
                    after,
                    entries,
                    time_ms,
                    trace,
                    at,
                ) == Ok::<Seq<FundingRate>, Overflow>(rates) && channels == indices_taken(
                    counted,
                    entries,
                ).1,
                Ok(_) => false,
                Err(_) => rates_of(after, entries, time_ms, trace, at) is Err,
            }
        }),
{
    lemma_counts_stay(Feed { counts: feed.counts.with_message(), ..feed }, message::stats_in(
        stats,
        message::MAX_NESTING as nat,
    ));
}

proof fn lemma_counts_stay(feed: Feed, entries: Seq<Stats>)
    ensures
        indices_taken(feed, entries).0.counts == feed.counts,
    decreases entries.len(),
{
    if entries.len() > 0 {
        lemma_counts_stay(feed, entries.drop_last());
    }
}

/// A ping is answered by a pong, and a message that is neither levels nor statistics nor a ping
/// changes nothing but the count of messages. One that cannot be read is counted as such.
pub proof fn law_other_messages_change_nothing(
    feed: Feed,
    env: LighterEnvelope,
    trace: MessageTrace,
    at: Instant,
)
    ensures
        ({
            let (after, reaction) = after_message(feed, Incoming::Message(env), trace, at);
            let (kind, none) = (env.purpose(), Ok::<Reacted, Overflow>(Reacted::Nothing));
            &&& kind == LighterMessageKind::Ping ==> reaction == Ok::<Reacted, Overflow>(
                Reacted::Pong,
            )
            &&& reaction == Ok::<Reacted, Overflow>(Reacted::Pong) ==> kind
                == LighterMessageKind::Ping
            &&& kind != LighterMessageKind::OrderBook && kind != LighterMessageKind::MarketStats
                ==> after == (Feed { counts: after.counts, ..feed }) && after.counts == (
            SourceMetrics {
                messages_received: feed.counts.messages_received.wrapping_add(1),
                ..feed.counts
            }) && (kind == LighterMessageKind::Ping || reaction == none)
        }),
        after_message(feed, Incoming::Unreadable, trace, at).0 == (Feed {
            counts: SourceMetrics {
                messages_received: feed.counts.messages_received.wrapping_add(1),
                parse_errors: feed.counts.parse_errors.wrapping_add(1),
                ..feed.counts
            },
            ..feed
        }),
        after_message(feed, Incoming::Unreadable, trace, at).1 == Ok::<Reacted, Overflow>(
            Reacted::Nothing,
        ),
{
}

/// The book of a market whose levels have been taken in is handed on unless the levels that are shown
/// cross; then the message counts as unreadable. Nothing else is counted but the message, and the
/// book where it was listed anew.
pub proof fn law_levels_are_handed_on_unless_they_cross(
    feed: Feed,
    env: LighterEnvelope,
    payload: OrderBookPayload,
    index: u32,
    trace: MessageTrace,
    at: Instant,
)
    requires
        env.purpose() == LighterMessageKind::OrderBook,
        index_of(env) == Some(index),
        env.order_book == Some(payload),
        feed.books.contains_key(index),
        update_of(env, feed.books[index].1) is Snapshot || book_builder::refusal(
            feed.books[index].1,
            env.begin_nonce_value(),
        ) is None,
    ensures
        ({
            let (after, reaction) = after_message(feed, Incoming::Message(env), trace, at);
            let state = after.books[index].1;
            let cross = feed.depth > 0 && book::overlap(state.bids, state.asks);
            let anew = update_of(env, feed.books[index].1) is Snapshot;
            &&& cross ==> reaction == Ok::<Reacted, Overflow>(Reacted::Nothing)
            &&& !cross ==> (reaction matches Ok(reacted) && reacted is Emit)
            &&& after.counts == (SourceMetrics {
                messages_received: feed.counts.messages_received.wrapping_add(1),
                parse_errors: if cross {
                    feed.counts.parse_errors.wrapping_add(1)
                } else {
                    feed.counts.parse_errors
                },
                resyncs: if anew {
                    feed.counts.resyncs.wrapping_add(1)
                } else {
                    feed.counts.resyncs
                },
                ..feed.counts
            })
        }),
{
}

/// Levels of a market that is not kept, and levels that name no market, change nothing but the count
/// of messages.
pub proof fn law_levels_of_other_markets_change_nothing(
    feed: Feed,
    env: LighterEnvelope,
    trace: MessageTrace,
    at: Instant,
)
    requires
        env.purpose() == LighterMessageKind::OrderBook,
        index_of(env) matches Some(index) ==> !feed.books.contains_key(index),
    ensures
        after_message(feed, Incoming::Message(env), trace, at) == (
            Feed {
                counts: SourceMetrics {
                    messages_received: feed.counts.messages_received.wrapping_add(1),
                    ..feed.counts
                },
                ..feed
            },
            Ok::<Reacted, Overflow>(Reacted::Nothing),
        ),
{
}

/// A message names the market of its channel: the number at the end of the channel's name.
pub proof fn law_channel_names_the_market(env: LighterEnvelope, channel: String, index: u32)
    requires
        env.channel == Some(channel),
        channel@ == "order_book:"@ + text::digits(index as nat) || channel@ == "order_book/"@
            + text::digits(index as nat),
    ensures
        index_of(env) == Some(index),
{
    message::law_channel_names_its_market(index);
}

} // verus!
