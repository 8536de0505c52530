//! The market data of Aster: what is done on each message and each snapshot.
//!
//! Changes come over a stream, snapshots over REST. A snapshot is fetched when a connection starts
//! and whenever changes were lost. The venue bans addresses that ask too often, so any two fetches,
//! of whichever instruments, are kept apart by a configured span.

use vstd::prelude::*;

use crate::aster::book_builder;
use crate::aster::book_builder::{ApplyOutcome, AsterBookBuilder, BookPhase, State};
use crate::aster::message::{combined_stream_url, DepthEvent, DepthSnapshot};
use crate::backoff::{Backoff, Progress};
use crate::book;
use crate::book::{BookView, OrderBook, Side};
use crate::by_symbol::BySymbol;
use crate::config::AsterConfig;
use crate::ladder;
use crate::metrics::{SourceCounters, SourceMetrics};
use crate::source;
use crate::source::{Next, SessionEnd};
use crate::status::{ConnectionState, ConnectionStatus};
use crate::symbol::{Dex, Symbol};
use crate::text;
use crate::time::{Clock, Duration, Instant};
use crate::trace::MessageTrace;

verus! {

/// How many levels a side are kept at most.
pub const MAX_TRACKED_LEVELS: usize = 5000;

/// How long a connection may last where no limit is configured, in seconds: a year.
pub const NO_LIMIT_SECS: u64 = 31_536_000;

/// What has come in over the stream.
#[derive(Clone, Debug)]
pub enum Incoming {
    /// A change of a book.
    Event(DepthEvent),
    /// Another message, such as the answer to a subscription.
    Other,
    /// A message that could not be read.
    Unreadable,
}

/// What is to be done.
#[derive(Clone, Debug)]
pub enum Reaction {
    Nothing,
    /// The book is to be handed on.
    Emit(OrderBook),
    /// A snapshot is to be fetched after the delay.
    Fetch { symbol: Symbol, delay: Duration },
}

/// What a reaction says.
#[verifier::ext_equal]
pub enum Reacted {
    Nothing,
    Emit(BookView),
    Fetch { symbol: Symbol, delay: Duration },
}

impl View for Reaction {
    type V = Reacted;

    open spec fn view(&self) -> Reacted {
        match *self {
            Reaction::Nothing => Reacted::Nothing,
            Reaction::Emit(book) => Reacted::Emit(book@),
            Reaction::Fetch { symbol, delay } => Reacted::Fetch { symbol, delay },
        }
    }
}

/// How far the books of a connection have come.
#[verifier::ext_equal]
pub struct Feed {
    pub counts: SourceMetrics,
    pub status: ConnectionStatus,
    /// How many levels are shown on each side.
    pub depth: nat,
    /// How many levels are kept on each side.
    pub max: nat,
    pub books: Map<Symbol, State>,
    /// The instruments of which a snapshot is under way.
    pub pending: Set<Symbol>,
    /// When the next snapshot may be fetched.
    pub next_fetch: Instant,
    /// The least span between two fetches.
    pub spacing: Duration,
}

/// The reading `span` later, at most the last one that a clock can give.
pub open spec fn later(at: Instant, span: Duration) -> Instant {
    Instant {
        nanos: if at.nanos + span.nanos <= u64::MAX {
            (at.nanos + span.nanos) as u64
        } else {
            u64::MAX
        },
    }
}

/// When a fetch that is asked for at `at` is made.
pub open spec fn fetched_at(feed: Feed, at: Instant) -> Instant {
    if feed.next_fetch.nanos >= at.nanos {
        feed.next_fetch
    } else {
        at
    }
}

/// A snapshot of `symbol` is asked for at `at`. Nothing happens where one is under way.
pub open spec fn scheduled(feed: Feed, symbol: Symbol, at: Instant) -> (Feed, Reacted) {
    if feed.pending.contains(symbol) {
        (feed, Reacted::Nothing)
    } else {
        (
            Feed {
                pending: feed.pending.insert(symbol),
                next_fetch: later(fetched_at(feed, at), feed.spacing),
                ..feed
            },
            Reacted::Fetch {
                symbol,
                delay: crate::time::span_since(fetched_at(feed, at), at),
            },
        )
    }
}

/// The book of `symbol` as it is shown at `at`.
pub open spec fn shown(
    state: State,
    symbol: Symbol,
    depth: nat,
    trace: MessageTrace,
    at: Instant,
) -> BookView {
    BookView {
        dex: Dex::Aster,
        symbol,
        bids: ladder::first_of(state.bids, depth),
        asks: ladder::first_of(state.asks, depth),
        trace: MessageTrace {
            exchange_ts_ms: state.exchange_ts_ms,
            normalized_instant: Some(at),
            ..trace
        },
    }
}

/// The book of `symbol` is handed on, unless it is crossed, which counts as a message that could not
/// be read.
pub open spec fn emitted(feed: Feed, symbol: Symbol, trace: MessageTrace, at: Instant) -> (
    Feed,
    Reacted,
) {
    let book = shown(feed.books[symbol], symbol, feed.depth, trace, at);
    if book.crossed() {
        (Feed { counts: feed.counts.with_parse_error(), ..feed }, Reacted::Nothing)
    } else {
        (feed, Reacted::Emit(book))
    }
}

/// Changes of `symbol` were lost: its book is dropped and a snapshot asked for.
pub open spec fn lost(feed: Feed, symbol: Symbol, at: Instant) -> (Feed, Reacted) {
    scheduled(
        Feed {
            counts: feed.counts.with_sequence_gap(),
            books: feed.books.insert(symbol, book_builder::initial()),
            ..feed
        },
        symbol,
        at,
    )
}

/// What is to be done once the time is known.
#[derive(Clone, Copy, Debug, PartialEq, Eq, Structural)]
pub enum Todo {
    Nothing,
    /// The book is to be handed on.
    Emit(Symbol),
    /// Changes were lost: the book is to be dropped.
    Lose(Symbol),
    /// A snapshot is to be asked for.
    Fetch(Symbol),
}

/// What is to be done is done at `at`.
pub open spec fn done(feed: Feed, todo: Todo, trace: MessageTrace, at: Instant) -> (Feed, Reacted) {
    match todo {
        Todo::Nothing => (feed, Reacted::Nothing),
        Todo::Emit(symbol) => emitted(feed, symbol, trace, at),
        Todo::Lose(symbol) => lost(feed, symbol, at),
        Todo::Fetch(symbol) => scheduled(feed, symbol, at),
    }
}

/// A change is taken in.
pub open spec fn event_taken(feed: Feed, event: DepthEvent) -> (Feed, Todo) {
    match Symbol::called(Dex::Aster, event.symbol_raw@) {
        Some(symbol) => if feed.books.contains_key(symbol) {
            let (state, outcome) = book_builder::step(
                feed.books[symbol],
                book_builder::change_of(event),
                feed.max,
            );
            let after = Feed { books: feed.books.insert(symbol, state), ..feed };
            match outcome {
                Ok(ApplyOutcome::Applied) => (after, Todo::Emit(symbol)),
                Ok(_) => (after, Todo::Nothing),
                Err(_) => (after, Todo::Lose(symbol)),
            }
        } else {
            (feed, Todo::Nothing)
        },
        None => (feed, Todo::Nothing),
    }
}

/// What has come in over the stream is taken in.
pub open spec fn message_taken(feed: Feed, incoming: Incoming) -> (Feed, Todo) {
    let counted = Feed { counts: feed.counts.with_message(), ..feed };
    match incoming {
        Incoming::Event(event) => event_taken(counted, event),
        Incoming::Other => (counted, Todo::Nothing),
        Incoming::Unreadable => (
            Feed { counts: counted.counts.with_parse_error(), ..counted },
            Todo::Nothing,
        ),
    }
}

/// A snapshot of `symbol` is taken in, or it is noted that it could not be had.
pub open spec fn snapshot_taken(feed: Feed, symbol: Symbol, snapshot: Option<DepthSnapshot>) -> (
    Feed,
    Todo,
) {
    let waiting = Feed { pending: feed.pending.remove(symbol), ..feed };
    match snapshot {
        Some(snapshot) => if feed.books.contains_key(symbol) {
            let (state, outcome) = book_builder::replayed(
                book_builder::started(snapshot, feed.max),
                feed.books[symbol].buffer,
                feed.max,
            );
            let after = Feed { books: feed.books.insert(symbol, state), ..waiting };
            match outcome {
                Ok(()) => (
                    Feed { counts: feed.counts.with_resync(), ..after },
                    Todo::Emit(symbol),
                ),
                Err(_) => (after, Todo::Lose(symbol)),
            }
        } else {
            (waiting, Todo::Nothing)
        },
        None => (waiting, Todo::Fetch(symbol)),
    }
}

/// Something has come in over the stream.
pub open spec fn after_message(
    feed: Feed,
    incoming: Incoming,
    trace: MessageTrace,
    at: Instant,
) -> (Feed, Reacted) {
    let (taken, todo) = message_taken(feed, incoming);
    done(taken, todo, trace, at)
}

/// A snapshot of `symbol` has come in, or could not be had.
pub open spec fn after_snapshot(
    feed: Feed,
    symbol: Symbol,
    snapshot: Option<DepthSnapshot>,
    trace: MessageTrace,
    at: Instant,
) -> (Feed, Reacted) {
    let (taken, todo) = snapshot_taken(feed, symbol, snapshot);
    done(taken, todo, trace, at)
}

/// The fetches with which a connection starts, one after the other.
pub open spec fn first_fetches(feed: Feed, symbols: Seq<Symbol>, at: Instant) -> (
    Feed,
    Seq<Reacted>,
)
    decreases symbols.len(),
{
    if symbols.len() == 0 {
        (feed, Seq::empty())
    } else {
        let (before, fetches) = first_fetches(feed, symbols.drop_last(), at);
        let (after, fetch) = scheduled(before, symbols.last(), at);
        (after, fetches.push(fetch))
    }
}

/// The market data of Aster.
pub struct AsterMarketData {
    cfg: AsterConfig,
    state: ConnectionState,
    counters: SourceCounters,
    depth: usize,
    max_levels: usize,
    builders: BySymbol<AsterBookBuilder>,
    pending: BySymbol<bool>,
    next_fetch: Instant,
}

impl View for AsterMarketData {
    type V = Feed;

    closed spec fn view(&self) -> Feed {
        Feed {
            counts: self.counters@,
            status: self.state@,
            depth: self.depth as nat,
            max: self.max_levels as nat,
            books: self.builders@.map_values(|b: AsterBookBuilder| b@),
            pending: self.pending@.dom(),
            next_fetch: self.next_fetch,
            spacing: Duration { nanos: (self.cfg.resync_backoff_ms * 1_000_000) as u128 },
        }
    }
}

/// The books with which a connection starts.
pub open spec fn fresh_books(symbols: Seq<Symbol>) -> Map<Symbol, State> {
    Map::new(|s: Symbol| symbols.contains(s), |s: Symbol| book_builder::initial())
}

/// How many levels are kept on each side where snapshots have `limit` levels and `depth` are shown:
/// as many as a snapshot has, but no fewer than are shown and no more than
/// [`MAX_TRACKED_LEVELS`].
pub open spec fn levels_kept(limit: int, depth: int) -> int {
    if limit < depth {
        depth
    } else if limit > MAX_TRACKED_LEVELS {
        MAX_TRACKED_LEVELS as int
    } else {
        limit
    }
}

/// The streams of `symbols`.
pub open spec fn stream_names(cfg: AsterConfig, symbols: Seq<Symbol>) -> Seq<Seq<char>> {
    Seq::new(symbols.len(), |i: int| cfg.stream_name_of(symbols[i]))
}

impl AsterMarketData {
    /// Whether every book is in order and is kept under its instrument.
    pub closed spec fn wf(self) -> bool {
        &&& self.max_levels >= 1
        &&& forall|s: Symbol| #[trigger]
            self.builders@.contains_key(s) ==> self.builders@[s].wf()
                && self.builders@[s].symbol_of() == s && self.builders@[s].max()
                == self.max_levels
    }

    /// The configuration.
    pub closed spec fn config_of(self) -> AsterConfig {
        self.cfg
    }

    /// A source that is not connected.
    pub fn new(cfg: AsterConfig) -> (r: AsterMarketData)
        ensures
            r.wf(),
            r.config_of() == cfg,
            r@.counts == SourceMetrics::none(),
            r@.status == ConnectionStatus::Disconnected,
            r@.books == Map::<Symbol, State>::empty(),
            r@.pending == Set::<Symbol>::empty(),
            r@.spacing.nanos == cfg.resync_backoff_ms * 1_000_000,
    {
        let r = AsterMarketData {
            cfg,
            state: ConnectionState::new(),
            counters: SourceCounters::new(),
            depth: 0,
            max_levels: 1,
            builders: BySymbol::new(),
            pending: BySymbol::new(),
            next_fetch: Instant { nanos: 0 },
        };
        proof {
            assert(r@.books =~= Map::<Symbol, State>::empty());
            assert(r@.pending =~= Set::<Symbol>::empty());
        }
        r
    }

    /// The counts.
    pub fn counters(&self) -> (r: &SourceCounters)
        ensures
            r@ == self@.counts,
    {
        &self.counters
    }

    /// The venue.
    pub fn dex(&self) -> (r: Dex)
        ensures
            r == Dex::Aster,
    {
        Dex::Aster
    }

    /// How the connection stands.
    pub fn connection_status(&self) -> (r: ConnectionStatus)
        ensures
            r == self@.status,
    {
        self.state.get()
    }

    /// The counts.
    pub fn metrics(&self) -> (r: SourceMetrics)
        ensures
            r == self@.counts,
    {
        self.counters.snapshot()
    }

    /// The delays between attempts to connect.
    pub fn backoff(&self) -> (r: Backoff)
        ensures
            r.wf(),
            r@ == Progress::of_policy(
                self.config_of().reconnect_base_delay_ms,
                self.config_of().reconnect_max_delay_ms,
                self.config_of().reconnect_max_attempts,
            ),
    {
        let policy = self.cfg.reconnect_policy();
        Backoff::new(policy.base_delay_ms, policy.max_delay_ms, policy.max_attempts)
    }

    /// The address of the stream of `symbols`.
    pub fn stream_url(&self, symbols: &[Symbol]) -> (r: String)
        ensures
            r@ == text::without_end_slashes(self.config_of().ws_url@) + "/stream?streams="@
                + text::joined(stream_names(self.config_of(), symbols@), "/"@),
    {
        let n: usize = symbols.len();
        let mut names: Vec<String> = Vec::new();
        let mut i: usize = 0;
        while i < n
            invariant
                i <= n,
                n == symbols@.len(),
                text::views(names@) =~= stream_names(self.cfg, symbols@).take(i as int),
            decreases n - i,
        {
            let ghost before = text::views(names@);
            let name = self.cfg.depth_stream_name(symbols[i]);
            names.push(name);
            proof {
                assert(text::views(names@) =~= before.push(name@));
            }
            i += 1;
        }
        proof {
            assert(text::views(names@) =~= stream_names(self.cfg, symbols@));
        }
        combined_stream_url(self.cfg.ws_url.as_str(), &names)
    }

    /// The address of a snapshot of `symbol`.
    pub fn snapshot_url(&self, symbol: Symbol) -> (r: String)
        ensures
            r@ == self.config_of().snapshot_url_of(symbol),
    {
        self.cfg.snapshot_url(symbol)
    }

    /// When a connection that was made at `at` is made anew.
    pub fn session_deadline(&self, at: Instant) -> (r: Instant)
        ensures
            r == later(
                at,
                Duration {
                    nanos: if self.config_of().reconnect_before_hours == 0 {
                        (NO_LIMIT_SECS * 1_000_000_000) as u128
                    } else {
                        (self.config_of().reconnect_before_hours * 3_600 * 1_000_000_000) as u128
                    },
                },
            ),
    {
        let span = match self.cfg.session_max_duration() {
            Some(span) => span,
            None => Duration::from_secs(NO_LIMIT_SECS),
        };
        at.saturating_add(span)
    }

    /// Notes that a connection stands, and starts the books of `symbols` anew: says what snapshots
    /// are to be fetched. `depth` levels are shown on each side. Changes that come in before a
    /// snapshot are kept.
    pub fn begin_session(
        &mut self,
        symbols: &[Symbol],
        depth: usize,
        backoff: &mut Backoff,
        at: Instant,
    ) -> (r: Vec<Reaction>)
        requires
            old(self).wf(),
            old(backoff).wf(),
            depth <= MAX_TRACKED_LEVELS,
        ensures
            final(self).wf(),
            final(self).config_of() == old(self).config_of(),
            final(backoff).wf(),
            final(backoff)@ == (Progress { attempt: 0, ..old(backoff)@ }),
            ({
                let max = levels_kept(
                    old(self).config_of().snapshot_limit as int,
                    depth as int,
                );
                let start = Feed {
                    status: ConnectionStatus::Connected,
                    depth: depth as nat,
                    max: if max == 0 {
                        1
                    } else {
                        max as nat
                    },
                    books: fresh_books(symbols@),
                    pending: Set::empty(),
                    next_fetch: at,
                    ..old(self)@
                };
                (final(self)@, r@.map_values(|x: Reaction| x@)) == first_fetches(
                    start,
                    symbols@,
                    at,
                )
            }),
    {
        source::session_started(&mut self.state, backoff);
        let limit: usize = if self.cfg.snapshot_limit as u64 > MAX_TRACKED_LEVELS as u64 {
            MAX_TRACKED_LEVELS
        } else {
            self.cfg.snapshot_limit as usize
        };
        let kept: usize = if limit < depth {
            depth
        } else {
            limit
        };
        self.depth = depth;
        self.max_levels = if kept == 0 {
            1
        } else {
            kept
        };
        self.builders = BySymbol::new();
        self.pending = BySymbol::new();
        self.next_fetch = at;
        let n: usize = symbols.len();
        let mut i: usize = 0;
        let ghost start = Feed { books: fresh_books(symbols@), ..self@ };
        proof {
            assert(self@.books =~= fresh_books(symbols@.take(0)));
            assert(start.pending =~= Set::empty());
        }
        while i < n
            invariant
                i <= n,
                n == symbols@.len(),
                self.wf(),
                self.config_of() == old(self).config_of(),
                self@.books == fresh_books(symbols@.take(i as int)),
                start == (Feed { books: fresh_books(symbols@), ..self@ }),
            decreases n - i,
        {
            let symbol = symbols[i];
            let ghost before = self@;
            let builder = AsterBookBuilder::new(symbol, self.max_levels);
            self.builders.set(symbol, builder);
            proof {
                assert(symbols@.take(i + 1) =~= symbols@.take(i as int).push(symbol));
                let (now, all) = (symbols@.take(i as int), symbols@.take(i + 1));
                assert forall|s: Symbol| all.contains(s) <==> now.contains(s) || s == symbol by {
                    if now.contains(s) {
                        let k = choose|k: int| 0 <= k < now.len() && now[k] == s;
                        assert(all[k] == s);
                    }
                    assert(all[i as int] == symbol);
                }
                assert forall|s: Symbol| #[trigger] self@.books.contains_key(s) implies self@.books[s]
                    == book_builder::initial() && all.contains(s) by {
                    if s != symbol {
                        assert(before.books.contains_key(s));
                        assert(now.contains(s));
                        assert(before.books[s] == self@.books[s]);
                    }
                }
                assert forall|s: Symbol| all.contains(s) implies #[trigger] self@.books.contains_key(
                    s,
                ) by {
                    if s != symbol {
                        assert(before.books.contains_key(s));
                    }
                }
                assert(self@.books =~= fresh_books(all));
                assert(self@ =~= Feed { books: self@.books, ..before });
            }
            i += 1;
        }
        proof {
            assert(symbols@.take(n as int) =~= symbols@);
            assert(self@ =~= start);
            assert(self@.status == ConnectionStatus::Connected);
        }
        let mut fetches: Vec<Reaction> = Vec::new();
        let mut j: usize = 0;
        proof {
            assert(fetches@.map_values(|x: Reaction| x@) =~= Seq::<Reacted>::empty());
        }
        while j < n
            invariant
                j <= n,
                n == symbols@.len(),
                self.wf(),
                self.config_of() == old(self).config_of(),
                (self@, fetches@.map_values(|x: Reaction| x@)) == first_fetches(
                    start,
                    symbols@.take(j as int),
                    at,
                ),
            decreases n - j,
        {
            let ghost done = fetches@.map_values(|x: Reaction| x@);
            let fetch = self.schedule_snapshot(symbols[j], at);
            fetches.push(fetch);
            proof {
                assert(symbols@.take(j + 1).drop_last() =~= symbols@.take(j as int));
                assert(symbols@.take(j + 1).last() == symbols@[j as int]);
                assert(fetches@.map_values(|x: Reaction| x@) =~= done.push(fetch@));
            }
            j += 1;
        }
        fetches
    }

    /// Asks for a snapshot of `symbol`. Fetches are kept apart whatever their instruments: the
    /// venue counts them by address.
    fn schedule_snapshot(&mut self, symbol: Symbol, at: Instant) -> (r: Reaction)
        requires
            old(self).wf(),
        ensures
            final(self).wf(),
            final(self).config_of() == old(self).config_of(),
            (final(self)@, r@) == scheduled(old(self)@, symbol, at),
    {
        if self.pending.contains(symbol) {
            return Reaction::Nothing;
        }
        self.pending.set(symbol, true);
        let fire_at = if self.next_fetch.nanos >= at.nanos {
            self.next_fetch
        } else {
            at
        };
        let delay = fire_at.saturating_duration_since(at);
        self.next_fetch = fire_at.saturating_add(Duration::from_millis(self.cfg.resync_backoff_ms));
        proof {
            assert(self@.pending =~= old(self)@.pending.insert(symbol));
            assert(self@ =~= scheduled(old(self)@, symbol, at).0);
        }
        Reaction::Fetch { symbol, delay }
    }

    fn emit(&mut self, symbol: Symbol, trace: MessageTrace, at: Instant) -> (r: Reaction)
        requires
            old(self).wf(),
            old(self)@.books.contains_key(symbol),
        ensures
            final(self).wf(),
            final(self).config_of() == old(self).config_of(),
            (final(self)@, r@) == emitted(old(self)@, symbol, trace, at),
            r matches Reaction::Emit(book) ==> book.fault() is None,
    {
        match self.builders.get(symbol) {
            Some(builder) => {
                let book = builder.order_book_at(self.depth, trace, at);
                proof {
                    assert(book@ =~= shown(
                        self@.books[symbol],
                        symbol,
                        self@.depth,
                        trace,
                        at,
                    ));
                }
                if book.is_crossed() {
                    self.counters.record_parse_error();
                    return Reaction::Nothing;
                }
                Reaction::Emit(book)
            },
            None => Reaction::Nothing,
        }
    }

    fn lose(&mut self, symbol: Symbol, at: Instant) -> (r: Reaction)
        requires
            old(self).wf(),
            old(self)@.books.contains_key(symbol),
        ensures
            final(self).wf(),
            final(self).config_of() == old(self).config_of(),
            (final(self)@, r@) == lost(old(self)@, symbol, at),
    {
        self.counters.record_sequence_gap();
        if let Some(mut builder) = self.builders.take(symbol) {
            builder.reset();
            self.builders.set(symbol, builder);
        }
        proof {
            assert(self@.books =~= old(self)@.books.insert(symbol, book_builder::initial()));
            assert(self@ =~= Feed {
                counts: old(self)@.counts.with_sequence_gap(),
                books: old(self)@.books.insert(symbol, book_builder::initial()),
                ..old(self)@
            });
        }
        self.schedule_snapshot(symbol, at)
    }

    fn take_message(&mut self, incoming: &Incoming) -> (r: Todo)
        requires
            old(self).wf(),
        ensures
            final(self).wf(),
            final(self).config_of() == old(self).config_of(),
            (final(self)@, r) == message_taken(old(self)@, *incoming),
            r matches Todo::Emit(symbol) ==> final(self)@.books.contains_key(symbol),
            r matches Todo::Lose(symbol) ==> final(self)@.books.contains_key(symbol),
    {
        self.counters.record_message();
        let event = match incoming {
            Incoming::Event(event) => event,
            Incoming::Other => return Todo::Nothing,
            Incoming::Unreadable => {
                self.counters.record_parse_error();
                return Todo::Nothing;
            },
        };
        let symbol = match event.symbol() {
            Some(symbol) => symbol,
            None => return Todo::Nothing,
        };
        let ghost counted = self@;
        match self.builders.take(symbol) {
            Some(mut builder) => {
                let outcome = builder.apply_event(event);
                self.builders.set(symbol, builder);
                proof {
                    assert(self@.books =~= counted.books.insert(symbol, builder@));
                    assert(self@ =~= event_taken(counted, *event).0);
                }
                match outcome {
                    Ok(ApplyOutcome::Applied) => Todo::Emit(symbol),
                    Ok(_) => Todo::Nothing,
                    Err(_) => Todo::Lose(symbol),
                }
            },
            None => {
                proof {
                    assert(self@.books =~= counted.books);
                    assert(self@ =~= counted);
                }
                Todo::Nothing
            },
        }
    }

    fn take_snapshot(&mut self, symbol: Symbol, snapshot: &Option<DepthSnapshot>) -> (r: Todo)
        requires
            old(self).wf(),
        ensures
            final(self).wf(),
            final(self).config_of() == old(self).config_of(),
            (final(self)@, r) == snapshot_taken(old(self)@, symbol, *snapshot),
            r matches Todo::Emit(symbol) ==> final(self)@.books.contains_key(symbol),
            r matches Todo::Lose(symbol) ==> final(self)@.books.contains_key(symbol),
    {
        let _ = self.pending.take(symbol);
        let ghost waiting = self@;
        proof {
            assert(self@.pending =~= old(self)@.pending.remove(symbol));
            assert(waiting =~= Feed { pending: waiting.pending, ..old(self)@ });
        }
        let snapshot = match snapshot {
            Some(snapshot) => snapshot,
            None => return Todo::Fetch(symbol),
        };
        match self.builders.take(symbol) {
            Some(mut builder) => {
                let outcome = builder.apply_snapshot(snapshot);
                self.builders.set(symbol, builder);
                proof {
                    assert(self@.books =~= waiting.books.insert(symbol, builder@));
                    assert(self@ =~= Feed { books: self@.books, ..waiting });
                }
                match outcome {
                    Ok(()) => {
                        self.counters.record_resync();
                        Todo::Emit(symbol)
                    },
                    Err(_) => Todo::Lose(symbol),
                }
            },
            None => {
                proof {
                    assert(self@.books =~= waiting.books);
                    assert(self@ =~= waiting);
                }
                Todo::Nothing
            },
        }
    }

    fn act(&mut self, todo: Todo, trace: MessageTrace, at: Instant) -> (r: Reaction)
        requires
            old(self).wf(),
            todo matches Todo::Emit(symbol) ==> old(self)@.books.contains_key(symbol),
            todo matches Todo::Lose(symbol) ==> old(self)@.books.contains_key(symbol),
        ensures
            final(self).wf(),
            final(self).config_of() == old(self).config_of(),
            (final(self)@, r@) == done(old(self)@, todo, trace, at),
            r matches Reaction::Emit(book) ==> book.fault() is None,
    {
        match todo {
            Todo::Nothing => Reaction::Nothing,
            Todo::Emit(symbol) => self.emit(symbol, trace, at),
            Todo::Lose(symbol) => self.lose(symbol, at),
            Todo::Fetch(symbol) => self.schedule_snapshot(symbol, at),
        }
    }

    /// Takes in what has come over the stream; `at` is the time at which that is done.
    pub fn on_message_at(&mut self, incoming: &Incoming, trace: MessageTrace, at: Instant) -> (r:
        Reaction)
        requires
            old(self).wf(),
        ensures
            final(self).wf(),
            final(self).config_of() == old(self).config_of(),
            (final(self)@, r@) == after_message(old(self)@, *incoming, trace, at),
            r matches Reaction::Emit(book) ==> book.fault() is None,
    {
        let todo = self.take_message(incoming);
        self.act(todo, trace, at)
    }

    /// Takes in what has come over the stream.
    pub fn on_message(&mut self, incoming: &Incoming, trace: MessageTrace, clock: &Clock) -> (r:
        Reaction)
        requires
            old(self).wf(),
        ensures
            final(self).wf(),
            final(self).config_of() == old(self).config_of(),
            exists|at: Instant|
                (final(self)@, r@) == #[trigger] after_message(old(self)@, *incoming, trace, at),
            r matches Reaction::Emit(book) ==> book.fault() is None,
    {
        let todo = self.take_message(incoming);
        let at = clock.now();
        let r = self.act(todo, trace, at);
        proof {
            assert((self@, r@) == after_message(old(self)@, *incoming, trace, at));
        }
        r
    }

    /// Takes in a snapshot of `symbol`, or that it could not be had; `at` is the time at which that
    /// is done.
    pub fn on_snapshot_at(
        &mut self,
        symbol: Symbol,
        snapshot: &Option<DepthSnapshot>,
        trace: MessageTrace,
        at: Instant,
    ) -> (r: Reaction)
        requires
            old(self).wf(),
        ensures
            final(self).wf(),
            final(self).config_of() == old(self).config_of(),
            (final(self)@, r@) == after_snapshot(old(self)@, symbol, *snapshot, trace, at),
            r matches Reaction::Emit(book) ==> book.fault() is None,
    {
        let todo = self.take_snapshot(symbol, snapshot);
        self.act(todo, trace, at)
    }

    /// Takes in a snapshot of `symbol`, or that it could not be had.
    pub fn on_snapshot(
        &mut self,
        symbol: Symbol,
        snapshot: &Option<DepthSnapshot>,
        trace: MessageTrace,
        clock: &Clock,
    ) -> (r: Reaction)
        requires
            old(self).wf(),
        ensures
            final(self).wf(),
            final(self).config_of() == old(self).config_of(),
            exists|at: Instant|
                (final(self)@, r@) == #[trigger] after_snapshot(
                    old(self)@,
                    symbol,
                    *snapshot,
                    trace,
                    at,
                ),
            r matches Reaction::Emit(book) ==> book.fault() is None,
    {
        let todo = self.take_snapshot(symbol, snapshot);
        let at = clock.now();
        let r = self.act(todo, trace, at);
        proof {
            assert((self@, r@) == after_snapshot(old(self)@, symbol, *snapshot, trace, at));
        }
        r
    }

    /// Notes that a book was handed on.
    pub fn book_sent(&mut self)
        requires
            old(self).wf(),
        ensures
            final(self).wf(),
            final(self).config_of() == old(self).config_of(),
            final(self)@ == (Feed { counts: old(self)@.counts.with_book(), ..old(self)@ }),
    {
        self.counters.record_book();
    }

    /// Decides how to go on after a connection has ended.
    pub fn end_session(&mut self, backoff: &mut Backoff, end: SessionEnd) -> (r: Next)
        requires
            old(self).wf(),
            old(backoff).wf(),
        ensures
            final(self).wf(),
            final(self).config_of() == old(self).config_of(),
            final(self)@ == (Feed { status: final(self)@.status, ..old(self)@ }),
            source::went_on(old(backoff)@, end, final(self)@.status, final(backoff)@, r),
            final(backoff).wf(),
    {
        source::after_session(&mut self.state, backoff, end)
    }
}

/// However many instruments ask for snapshots, and in whatever state the feed is by then, two
/// fetches are made at least the configured span apart, up to the end of the clock.
pub proof fn law_fetches_are_kept_apart(
    feed: Feed,
    first: Symbol,
    at: Instant,
    later_feed: Feed,
    second: Symbol,
    later_at: Instant,
)
    requires
        !feed.pending.contains(first),
        later_feed.next_fetch.nanos >= scheduled(feed, first, at).0.next_fetch.nanos,
        fetched_at(feed, at).nanos + feed.spacing.nanos <= u64::MAX,
    ensures
        fetched_at(later_feed, later_at).nanos >= fetched_at(feed, at).nanos + feed.spacing.nanos,
{
}

/// The time of the next fetch never moves back, so whatever comes in between, fetches stay apart.
pub proof fn law_next_fetch_does_not_move_back(
    feed: Feed,
    incoming: Incoming,
    symbol: Symbol,
    snapshot: Option<DepthSnapshot>,
    trace: MessageTrace,
    at: Instant,
)
    ensures
        after_message(feed, incoming, trace, at).0.next_fetch.nanos >= feed.next_fetch.nanos,
        after_snapshot(feed, symbol, snapshot, trace, at).0.next_fetch.nanos
            >= feed.next_fetch.nanos,
{
}

/// While a snapshot of an instrument is under way no other one of it is asked for by a message.
pub proof fn law_one_fetch_at_a_time(
    feed: Feed,
    incoming: Incoming,
    symbol: Symbol,
    trace: MessageTrace,
    at: Instant,
)
    requires
        feed.pending.contains(symbol),
    ensures
        after_message(feed, incoming, trace, at).1 matches Reacted::Fetch { symbol: s, .. } ==> s
            != symbol,
        after_message(feed, incoming, trace, at).0.pending.contains(symbol),
{
}

/// A book that is handed on is not crossed, and comes from the instrument's own changes: a message
/// about one instrument leaves the books of all others as they are.
pub proof fn law_instruments_do_not_mix(
    feed: Feed,
    incoming: Incoming,
    trace: MessageTrace,
    at: Instant,
    other: Symbol,
)
    ensures
        after_message(feed, incoming, trace, at).1 matches Reacted::Emit(book) ==> !book.crossed(),
        (incoming matches Incoming::Event(event) ==> Symbol::called(Dex::Aster, event.symbol_raw@)
            != Some(other)) ==> after_message(feed, incoming, trace, at).0.books.contains_key(other)
            == feed.books.contains_key(other) && after_message(
            feed,
            incoming,
            trace,
            at,
        ).0.books[other] == feed.books[other],
{
}

/// Whether every book of the feed is in order.
pub open spec fn in_order(feed: Feed) -> bool {
    forall|symbol: Symbol| #[trigger]
        feed.books.contains_key(symbol) ==> book_builder::in_order(feed.books[symbol])
}

/// A change goes into the book of its instrument and into no other. One that is applied is made to
/// the book that was there, whose best levels are then handed on unless they cross; one that shows a
/// gap empties the book and asks for a snapshot; any other one changes nothing that is shown.
pub proof fn law_changes_go_into_the_book_of_their_instrument(
    feed: Feed,
    event: DepthEvent,
    symbol: Symbol,
    trace: MessageTrace,
    at: Instant,
)
    requires
        in_order(feed),
        Symbol::called(Dex::Aster, event.symbol_raw@) == Some(symbol),
        feed.books.contains_key(symbol),
    ensures
        ({
            let (after, reaction) = after_message(feed, Incoming::Event(event), trace, at);
            let (old_state, new_state) = (feed.books[symbol], after.books[symbol]);
            let (bids, asks) = (ladder::pairs(event.bids@), ladder::pairs(event.asks@));
            let (first, last) = (event.first_update_id, event.final_update_id);
            let applied = match old_state.phase {
                BookPhase::AwaitingSnapshot => false,
                BookPhase::AwaitingFirstEvent { last_update_id: id } => first <= id <= last,
                BookPhase::Streaming { last_update_id: id } => last > id && (
                event.prev_final_update_id is None || event.prev_final_update_id == Some(id)),
            };
            let gap = match old_state.phase {
                BookPhase::AwaitingSnapshot => false,
                BookPhase::AwaitingFirstEvent { last_update_id: id } => last >= id && first > id,
                BookPhase::Streaming { last_update_id: id } => last > id && (
                event.prev_final_update_id matches Some(prev) && prev != id),
            };
            &&& in_order(after)
            &&& after.books.dom() == feed.books.dom()
            &&& forall|other: Symbol|
                other != symbol && feed.books.contains_key(other) ==> #[trigger] after.books[other]
                    == feed.books[other]
            &&& after.counts.messages_received == feed.counts.messages_received.wrapping_add(1)
            &&& if applied {
                &&& ladder::is_update(Side::Bid, old_state.bids, bids, new_state.bids, feed.max)
                &&& ladder::is_update(Side::Ask, old_state.asks, asks, new_state.asks, feed.max)
                &&& new_state.phase == BookPhase::Streaming { last_update_id: last }
                &&& reaction matches Reacted::Emit(book) ==> {
                    &&& book.dex == Dex::Aster && book.symbol == symbol
                    &&& ladder::is_top(new_state.bids, feed.depth, book.bids)
                    &&& ladder::is_top(new_state.asks, feed.depth, book.asks)
                    &&& !book.crossed()
                    &&& book.trace == (MessageTrace {
                        exchange_ts_ms: new_state.exchange_ts_ms,
                        normalized_instant: Some(at),
                        ..trace
                    })
                    &&& after.counts.parse_errors == feed.counts.parse_errors
                }
                &&& reaction is Emit || (reaction is Nothing && after.counts.parse_errors
                    == feed.counts.parse_errors.wrapping_add(1))
                &&& after.counts.sequence_gaps == feed.counts.sequence_gaps
                &&& after.pending == feed.pending
            } else if gap {
                &&& new_state.bids.len() == 0 && new_state.asks.len() == 0
                &&& new_state.phase == BookPhase::AwaitingSnapshot
                &&& after.counts.sequence_gaps == feed.counts.sequence_gaps.wrapping_add(1)
                &&& after.pending == feed.pending.insert(symbol)
                &&& if feed.pending.contains(symbol) {
                    reaction is Nothing
                } else {
                    reaction matches Reacted::Fetch { symbol: s, delay } && s == symbol
                        && delay.nanos == if feed.next_fetch.nanos >= at.nanos {
                        feed.next_fetch.nanos - at.nanos
                    } else {
                        0
                    }
                }
            } else {
                &&& new_state.bids == old_state.bids && new_state.asks == old_state.asks
                &&& new_state.phase == old_state.phase
                &&& reaction is Nothing
                &&& after.pending == feed.pending
                &&& after.counts.sequence_gaps == feed.counts.sequence_gaps
            }
        }),
{
    let change = book_builder::change_of(event);
    book_builder::law_change_settles_what_it_names(feed.books[symbol], change, feed.max);
    book_builder::law_fate_of_a_change(feed.books[symbol], change, feed.max);
    let after = after_message(feed, Incoming::Event(event), trace, at).0;
    assert(after.books.dom() =~= feed.books.dom());
    assert(feed.pending.contains(symbol) ==> feed.pending.insert(symbol) =~= feed.pending);
    assert forall|other: Symbol| #[trigger]
        after.books.contains_key(other) implies book_builder::in_order(after.books[other]) by {
        assert(feed.books.contains_key(other));
    }
}

/// A snapshot goes into the book of its instrument and into no other: it is listed anew and the
/// changes that were kept are replayed on it. Where they do not fit, the book is dropped and another
/// snapshot asked for; where the snapshot could not be had, it is asked for again.
pub proof fn law_snapshot_starts_the_book_of_its_instrument(
    feed: Feed,
    symbol: Symbol,
    snapshot: Option<DepthSnapshot>,
    trace: MessageTrace,
    at: Instant,
)
    requires
        feed.books.contains_key(symbol),
    ensures
        ({
            let (after, reaction) = after_snapshot(feed, symbol, snapshot, trace, at);
            let new_state = after.books[symbol];
            &&& after.books.dom() == feed.books.dom()
            &&& forall|other: Symbol|
                other != symbol && feed.books.contains_key(other) ==> #[trigger] after.books[other]
                    == feed.books[other]
            &&& forall|other: Symbol|
                other != symbol ==> (#[trigger] after.pending.contains(other)
                    <==> feed.pending.contains(other))
            &&& match snapshot {
                Some(snapshot) => {
                    let (state, outcome) = book_builder::replayed(
                        book_builder::started(snapshot, feed.max),
                        feed.books[symbol].buffer,
                        feed.max,
                    );
                    if outcome is Ok {
                        &&& new_state == state
                        &&& !after.pending.contains(symbol)
                        &&& after.counts.resyncs == feed.counts.resyncs.wrapping_add(1)
                        &&& reaction is Emit || reaction is Nothing
                        &&& reaction matches Reacted::Emit(book) ==> {
                            &&& book.dex == Dex::Aster && book.symbol == symbol
                            &&& ladder::is_top(state.bids, feed.depth, book.bids)
                            &&& ladder::is_top(state.asks, feed.depth, book.asks)
                            &&& !book.crossed()
                        }
                    } else {
                        &&& new_state.bids.len() == 0 && new_state.asks.len() == 0
                        &&& new_state.phase == BookPhase::AwaitingSnapshot
                        &&& after.pending.contains(symbol)
                        &&& reaction matches Reacted::Fetch { symbol: s, .. } && s == symbol
                        &&& after.counts.sequence_gaps == feed.counts.sequence_gaps.wrapping_add(1)
                    }
                },
                None => {
                    &&& new_state == feed.books[symbol]
                    &&& after.pending.contains(symbol)
                    &&& reaction matches Reacted::Fetch { symbol: s, .. } && s == symbol
                },
            }
        }),
{
    let after = after_snapshot(feed, symbol, snapshot, trace, at).0;
    assert(after.books.dom() =~= feed.books.dom());
}

/// A fetch is made no earlier than it is asked for and no earlier than the next one may be made; the
/// one after it waits at least the configured span more.
pub proof fn law_fetch_waits_its_turn(feed: Feed, symbol: Symbol, at: Instant)
    requires
        !feed.pending.contains(symbol),
    ensures
        ({
            let (after, reaction) = scheduled(feed, symbol, at);
            &&& reaction matches Reacted::Fetch { symbol: s, delay } && s == symbol && {
                let made = at.nanos + delay.nanos;
                &&& made >= feed.next_fetch.nanos
                &&& made == at.nanos || made == feed.next_fetch.nanos
                &&& made + feed.spacing.nanos <= u64::MAX ==> after.next_fetch.nanos == made
                    + feed.spacing.nanos
            }
            &&& after.pending == feed.pending.insert(symbol)
            &&& after.books == feed.books
            &&& after.counts == feed.counts
        }),
{
}

/// A connection asks for the snapshots of one part of its instruments and then for those of the other,
/// however many there are.
pub proof fn law_first_fetches_are_asked_for_in_turn(
    feed: Feed,
    first: Seq<Symbol>,
    second: Seq<Symbol>,
    at: Instant,
)
    ensures
        ({
            let (between, some) = first_fetches(feed, first, at);
            let (after, others) = first_fetches(between, second, at);
            first_fetches(feed, first + second, at) == (after, some + others)
        }),
    decreases second.len(),
{
    let all = first + second;
    let (between, some) = first_fetches(feed, first, at);
    if second.len() == 0 {
        assert(all =~= first);
        assert(some + Seq::<Reacted>::empty() =~= some);
    } else {
        assert(all.drop_last() =~= first + second.drop_last());
        assert(all.last() == second.last());
        law_first_fetches_are_asked_for_in_turn(feed, first, second.drop_last(), at);
        let (before, others) = first_fetches(between, second.drop_last(), at);
        let fetch = scheduled(before, second.last(), at).1;
        assert((some + others).push(fetch) =~= some + others.push(fetch));
    }
}

/// For a single instrument a connection asks for its snapshot.
pub proof fn law_first_fetch_of_one_instrument(feed: Feed, symbol: Symbol, at: Instant)
    ensures
        first_fetches(feed, seq![symbol], at) == (
            scheduled(feed, symbol, at).0,
            seq![scheduled(feed, symbol, at).1],
        ),
{
    reveal_with_fuel(first_fetches, 2);
    assert(seq![symbol].drop_last().len() == 0);
    let fetch = scheduled(feed, symbol, at).1;
    assert(Seq::<Reacted>::empty().push(fetch) =~= seq![fetch]);
}

/// As many levels are kept as a snapshot has, but never fewer than are shown, and more than the most
/// that are kept only to show them.
pub proof fn law_enough_levels_are_kept(limit: int, depth: int)
    requires
        0 <= limit,
        0 <= depth,
    ensures
        levels_kept(limit, depth) >= depth || depth > MAX_TRACKED_LEVELS,
        limit >= depth && limit <= MAX_TRACKED_LEVELS ==> levels_kept(limit, depth) == limit,
        limit >= depth && limit > MAX_TRACKED_LEVELS ==> levels_kept(limit, depth)
            == MAX_TRACKED_LEVELS,
        limit < depth ==> levels_kept(limit, depth) == depth,
{
}

/// A message that is no change, or a change of an instrument that is not kept, changes nothing but the
/// count of messages; one that cannot be read is counted as such.
pub proof fn law_other_messages_change_nothing(
    feed: Feed,
    event: DepthEvent,
    trace: MessageTrace,
    at: Instant,
)
    requires
        Symbol::called(Dex::Aster, event.symbol_raw@) matches Some(symbol)
            ==> !feed.books.contains_key(symbol),
    ensures
        ({
            let counted = Feed {
                counts: SourceMetrics {
                    messages_received: feed.counts.messages_received.wrapping_add(1),
                    ..feed.counts
                },
                ..feed
            };
            let failed = Feed {
                counts: SourceMetrics {
                    parse_errors: feed.counts.parse_errors.wrapping_add(1),
                    ..counted.counts
                },
                ..feed
            };
            &&& after_message(feed, Incoming::Event(event), trace, at) == (
                counted,
                Reacted::Nothing,
            )
            &&& after_message(feed, Incoming::Other, trace, at) == (counted, Reacted::Nothing)
            &&& after_message(feed, Incoming::Unreadable, trace, at) == (failed, Reacted::Nothing)
        }),
{
}

/// The book of an instrument whose change was applied, or whose snapshot took in the changes that were
/// kept, is handed on unless the levels that are shown cross; then the message counts as unreadable.
pub proof fn law_books_are_handed_on_unless_they_cross(
    feed: Feed,
    symbol: Symbol,
    event: DepthEvent,
    snapshot: DepthSnapshot,
    trace: MessageTrace,
    at: Instant,
)
    requires
        feed.books.contains_key(symbol),
        Symbol::called(Dex::Aster, event.symbol_raw@) == Some(symbol),
    ensures
        ({
            let applied = book_builder::step(
                feed.books[symbol],
                book_builder::change_of(event),
                feed.max,
            ).1 == Ok::<ApplyOutcome, book_builder::ApplyError>(ApplyOutcome::Applied);
            let (after, reaction) = after_message(feed, Incoming::Event(event), trace, at);
            let state = after.books[symbol];
            let cross = feed.depth > 0 && book::overlap(state.bids, state.asks);
            applied ==> {
                &&& cross ==> reaction is Nothing
                &&& !cross ==> reaction is Emit
                &&& after.counts == (SourceMetrics {
                    messages_received: feed.counts.messages_received.wrapping_add(1),
                    parse_errors: if cross {
                        feed.counts.parse_errors.wrapping_add(1)
                    } else {
                        feed.counts.parse_errors
                    },
                    ..feed.counts
                })
            }
        }),
        ({
            let fits = book_builder::replayed(
                book_builder::started(snapshot, feed.max),
                feed.books[symbol].buffer,
                feed.max,
            ).1 is Ok;
            let (after, reaction) = after_snapshot(feed, symbol, Some(snapshot), trace, at);
            let state = after.books[symbol];
            let cross = feed.depth > 0 && book::overlap(state.bids, state.asks);
            fits ==> {
                &&& cross ==> reaction is Nothing
                &&& !cross ==> (reaction matches Reacted::Emit(book) && book.trace
                    == (MessageTrace {
                    exchange_ts_ms: state.exchange_ts_ms,
                    normalized_instant: Some(at),
                    ..trace
                }))
                &&& after.counts == (SourceMetrics {
                    resyncs: feed.counts.resyncs.wrapping_add(1),
                    parse_errors: if cross {
                        feed.counts.parse_errors.wrapping_add(1)
                    } else {
                        feed.counts.parse_errors
                    },
                    ..feed.counts
                })
            }
        }),
{
}

} // verus!
