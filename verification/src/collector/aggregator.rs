//! Price differences, worked out anew whenever a book changes.

use vstd::prelude::*;

use crate::book::OrderBook;
use crate::config::Config;
use crate::decimal::{Decimal, Overflow};
use crate::divergence::DivergenceSnapshot;
use crate::pairs;
use crate::rate_limit;
use crate::rate_limit::{Passed, RateLimiter};
use crate::store;
use crate::store::BookStore;
use crate::symbol::{Dex, Symbol};
use crate::time::{Clock, Duration, Instant};

verus! {

/// What is counted. A count that is full starts at zero again.
#[derive(Clone, Copy, Debug, PartialEq, Eq, Structural)]
pub struct AggregatorStats {
    pub books_processed: u64,
    pub snapshots_computed: u64,
    /// Snapshots for which there was no room.
    pub snapshots_dropped: u64,
    pub latency_warnings: u64,
    pub staleness_warnings: u64,
    pub clock_skew_warnings: u64,
}

impl Default for AggregatorStats {
    fn default() -> (r: AggregatorStats)
        ensures
            r == AggregatorStats::none(),
    {
        AggregatorStats {
            books_processed: 0,
            snapshots_computed: 0,
            snapshots_dropped: 0,
            latency_warnings: 0,
            staleness_warnings: 0,
            clock_skew_warnings: 0,
        }
    }
}

impl AggregatorStats {
    /// Nothing counted.
    pub open spec fn none() -> AggregatorStats {
        AggregatorStats {
            books_processed: 0,
            snapshots_computed: 0,
            snapshots_dropped: 0,
            latency_warnings: 0,
            staleness_warnings: 0,
            clock_skew_warnings: 0,
        }
    }
}

/// Something that is worth a line in the log. `suppressed` counts the warnings of the same kind that
/// were held back before.
#[derive(Clone, Copy, Debug, PartialEq, Eq, Structural)]
pub enum Warning {
    /// The venue's time lies ahead of ours: the clocks disagree, and no latency can be trusted.
    ClockSkew { dex: Dex, symbol: Symbol, latency_ms: i64, suppressed: u64 },
    /// A message was under way for too long.
    Latency { dex: Dex, symbol: Symbol, latency_ms: i64, suppressed: u64 },
    /// One of two books is much older than the other.
    Staleness { symbol: Symbol, staleness_delta_ms: i64, raw_spread_bps: Decimal, suppressed: u64 },
    /// There was no room for a snapshot.
    Backpressure { dropped_total: u64, suppressed: u64 },
}

/// The counts, and when warnings were let through.
#[verifier::ext_equal]
pub struct Watch {
    pub stats: AggregatorStats,
    pub passed: Map<Seq<char>, Passed>,
}

/// The latency of a book is looked at.
pub open spec fn latency_checked(
    w: Watch,
    book: OrderBook,
    warn_threshold_ms: i64,
    now: Instant,
    interval: Duration,
) -> (Watch, Option<Warning>) {
    match book.trace.exchange_delay_ms() {
        Some(latency_ms) => if latency_ms < 0 {
            let key = "skew:"@ + book.dex.name();
            (
                Watch {
                    stats: AggregatorStats {
                        clock_skew_warnings: w.stats.clock_skew_warnings.wrapping_add(1),
                        ..w.stats
                    },
                    passed: rate_limit::after(w.passed, key, now, interval),
                },
                match rate_limit::answer(w.passed, key, now, interval) {
                    Some(suppressed) => Some(
                        Warning::ClockSkew {
                            dex: book.dex,
                            symbol: book.symbol,
                            latency_ms,
                            suppressed,
                        },
                    ),
                    None => None,
                },
            )
        } else if latency_ms > warn_threshold_ms {
            let key = "latency:"@ + book.dex.name();
            (
                Watch {
                    stats: AggregatorStats {
                        latency_warnings: w.stats.latency_warnings.wrapping_add(1),
                        ..w.stats
                    },
                    passed: rate_limit::after(w.passed, key, now, interval),
                },
                match rate_limit::answer(w.passed, key, now, interval) {
                    Some(suppressed) => Some(
                        Warning::Latency {
                            dex: book.dex,
                            symbol: book.symbol,
                            latency_ms,
                            suppressed,
                        },
                    ),
                    None => None,
                },
            )
        } else {
            (w, None)
        },
        None => (w, None),
    }
}

/// Whether two books differ too much in age.
pub open spec fn stale(staleness_delta_ms: i64, warn_threshold_ms: i64) -> bool {
    staleness_delta_ms > warn_threshold_ms || -staleness_delta_ms > warn_threshold_ms
}

/// The ages of the two books of a snapshot are looked at.
pub open spec fn staleness_checked(
    w: Watch,
    snapshot: DivergenceSnapshot,
    warn_threshold_ms: i64,
    now: Instant,
    interval: Duration,
) -> (Watch, Option<Warning>) {
    if stale(snapshot.staleness_delta_ms, warn_threshold_ms) {
        let key = "staleness:"@ + snapshot.symbol.name();
        (
            Watch {
                stats: AggregatorStats {
                    staleness_warnings: w.stats.staleness_warnings.wrapping_add(1),
                    ..w.stats
                },
                passed: rate_limit::after(w.passed, key, now, interval),
            },
            match rate_limit::answer(w.passed, key, now, interval) {
                Some(suppressed) => Some(
                    Warning::Staleness {
                        symbol: snapshot.symbol,
                        staleness_delta_ms: snapshot.staleness_delta_ms,
                        raw_spread_bps: snapshot.raw_spread_bps,
                        suppressed,
                    },
                ),
                None => None,
            },
        )
    } else {
        (w, None)
    }
}

/// `warnings` and one more, where there is one.
pub open spec fn with_warning(warnings: Seq<Warning>, warning: Option<Warning>) -> Seq<Warning> {
    match warning {
        Some(warning) => warnings.push(warning),
        None => warnings,
    }
}

/// The snapshots are counted and looked at, one after the other.
pub open spec fn snapshots_checked(
    w: Watch,
    warnings: Seq<Warning>,
    snapshots: Seq<DivergenceSnapshot>,
    warn_threshold_ms: i64,
    now: Instant,
    interval: Duration,
) -> (Watch, Seq<Warning>)
    decreases snapshots.len(),
{
    if snapshots.len() == 0 {
        (w, warnings)
    } else {
        let (before, earlier) = snapshots_checked(
            w,
            warnings,
            snapshots.drop_last(),
            warn_threshold_ms,
            now,
            interval,
        );
        let counted = Watch {
            stats: AggregatorStats {
                snapshots_computed: before.stats.snapshots_computed.wrapping_add(1),
                ..before.stats
            },
            ..before
        };
        let (after, warning) = staleness_checked(
            counted,
            snapshots.last(),
            warn_threshold_ms,
            now,
            interval,
        );
        (after, with_warning(earlier, warning))
    }
}

/// The book is looked at and counted.
pub open spec fn book_checked(
    w: Watch,
    book: OrderBook,
    warn_threshold_ms: i64,
    now: Instant,
    interval: Duration,
) -> (Watch, Seq<Warning>) {
    let (checked, warning) = latency_checked(w, book, warn_threshold_ms, now, interval);
    (
        Watch {
            stats: AggregatorStats {
                books_processed: checked.stats.books_processed.wrapping_add(1),
                ..checked.stats
            },
            ..checked
        },
        with_warning(Seq::empty(), warning),
    )
}

/// Looks at how long a book was under way, and at whether the clocks agree.
pub fn check_latency(
    book: &OrderBook,
    warn_threshold_ms: i64,
    limiter: &mut RateLimiter,
    stats: &mut AggregatorStats,
    now: Instant,
) -> (r: Option<Warning>)
    ensures
        final(limiter).interval() == old(limiter).interval(),
        (Watch { stats: *final(stats), passed: final(limiter)@ }, r) == latency_checked(
            Watch { stats: *old(stats), passed: old(limiter)@ },
            *book,
            warn_threshold_ms,
            now,
            old(limiter).interval(),
        ),
{
    let latency_ms: i64 = match book.trace.exchange_to_local_ms() {
        Some(latency_ms) => latency_ms,
        None => return None,
    };
    if latency_ms < 0 {
        stats.clock_skew_warnings = stats.clock_skew_warnings.wrapping_add(1);
        let mut key = "skew:".to_owned();
        key.append(book.dex.as_str());
        match limiter.allow_at(key.as_str(), now) {
            Some(suppressed) => Some(
                Warning::ClockSkew { dex: book.dex, symbol: book.symbol, latency_ms, suppressed },
            ),
            None => None,
        }
    } else if latency_ms > warn_threshold_ms {
        stats.latency_warnings = stats.latency_warnings.wrapping_add(1);
        let mut key = "latency:".to_owned();
        key.append(book.dex.as_str());
        match limiter.allow_at(key.as_str(), now) {
            Some(suppressed) => Some(
                Warning::Latency { dex: book.dex, symbol: book.symbol, latency_ms, suppressed },
            ),
            None => None,
        }
    } else {
        None
    }
}

/// Looks at how much the two books of a snapshot differ in age.
pub fn check_staleness(
    snapshot: &DivergenceSnapshot,
    warn_threshold_ms: i64,
    limiter: &mut RateLimiter,
    stats: &mut AggregatorStats,
    now: Instant,
) -> (r: Option<Warning>)
    ensures
        final(limiter).interval() == old(limiter).interval(),
        (Watch { stats: *final(stats), passed: final(limiter)@ }, r) == staleness_checked(
            Watch { stats: *old(stats), passed: old(limiter)@ },
            *snapshot,
            warn_threshold_ms,
            now,
            old(limiter).interval(),
        ),
{
    let delta: i128 = snapshot.staleness_delta_ms as i128;
    let threshold: i128 = warn_threshold_ms as i128;
    if delta <= threshold && -delta <= threshold {
        return None;
    }
    stats.staleness_warnings = stats.staleness_warnings.wrapping_add(1);
    let mut key = "staleness:".to_owned();
    key.append(snapshot.symbol.as_str());
    match limiter.allow_at(key.as_str(), now) {
        Some(suppressed) => Some(
            Warning::Staleness {
                symbol: snapshot.symbol,
                staleness_delta_ms: snapshot.staleness_delta_ms,
                raw_spread_bps: snapshot.raw_spread_bps,
                suppressed,
            },
        ),
        None => None,
    }
}

/// What comes of a book.
#[derive(Clone, Debug)]
pub struct Outcome {
    pub warnings: Vec<Warning>,
    /// To be handed on to be written.
    pub snapshots: Vec<DivergenceSnapshot>,
}

/// How the aggregator stands.
#[verifier::ext_equal]
pub struct State {
    pub books: Map<(Dex, Symbol), OrderBook>,
    pub watch: Watch,
}

/// How an aggregator is set up.
pub struct Setup {
    /// The venues that are compared.
    pub dexes: Seq<Dex>,
    pub vwap_notional: Option<Decimal>,
    pub latency_warn_ms: i64,
    pub staleness_warn_ms: i64,
    /// The least span between two warnings of the same kind.
    pub warn_interval: Duration,
}

/// Takes in books and compares them.
pub struct Aggregator {
    store: BookStore,
    stats: AggregatorStats,
    limiter: RateLimiter,
    dexes: Vec<Dex>,
    vwap_notional: Option<Decimal>,
    latency_warn_ms: i64,
    staleness_warn_ms: i64,
}

impl View for Aggregator {
    type V = State;

    closed spec fn view(&self) -> State {
        State {
            books: self.store@,
            watch: Watch { stats: self.stats, passed: self.limiter@ },
        }
    }
}

/// The pairs that are compared when a book of `dex` comes in.
pub open spec fn compared(setup: Setup, dex: Dex) -> Seq<(Dex, Dex)> {
    pairs::pairs_of(pairs::unique(setup.dexes)).filter(
        |p: (Dex, Dex)| pairs::involves(p, dex),
    )
}

impl Aggregator {
    /// Whether the store is in order.
    pub closed spec fn wf(self) -> bool {
        self.store.wf()
    }

    /// How the aggregator is set up.
    pub closed spec fn setup(self) -> Setup {
        Setup {
            dexes: self.dexes@,
            vwap_notional: self.vwap_notional,
            latency_warn_ms: self.latency_warn_ms,
            staleness_warn_ms: self.staleness_warn_ms,
            warn_interval: self.limiter.interval(),
        }
    }

    /// An aggregator for the venues that are collected from. The span between two warnings is a
    /// second at least.
    pub fn new(cfg: &Config) -> (r: Aggregator)
        ensures
            r.wf(),
            r@ == (State {
                books: Map::empty(),
                watch: Watch { stats: AggregatorStats::none(), passed: Map::empty() },
            }),
            r.setup() == (Setup {
                dexes: cfg.dexes(),
                vwap_notional: if cfg.general.vwap_notional_usd.units() > 0 {
                    Some(cfg.general.vwap_notional_usd)
                } else {
                    None
                },
                latency_warn_ms: cfg.monitoring.latency_warn_threshold_ms,
                staleness_warn_ms: cfg.monitoring.staleness_warn_threshold_ms,
                warn_interval: Duration {
                    nanos: if cfg.monitoring.warn_min_interval_secs == 0 {
                        1_000_000_000
                    } else {
                        (cfg.monitoring.warn_min_interval_secs * 1_000_000_000) as u128
                    },
                },
            }),
    {
        let secs: u64 = if cfg.monitoring.warn_min_interval_secs == 0 {
            1
        } else {
            cfg.monitoring.warn_min_interval_secs
        };
        Aggregator {
            store: BookStore::new(),
            stats: AggregatorStats::default(),
            limiter: RateLimiter::new(Duration::from_secs(secs)),
            dexes: cfg.enabled_dexes(),
            vwap_notional: cfg.vwap_notional(),
            latency_warn_ms: cfg.monitoring.latency_warn_threshold_ms,
            staleness_warn_ms: cfg.monitoring.staleness_warn_threshold_ms,
        }
    }

    /// The counts.
    pub fn stats(&self) -> (r: AggregatorStats)
        ensures
            r == self@.watch.stats,
    {
        self.stats
    }

    /// The books.
    pub fn store(&self) -> (r: &BookStore)
        requires
            self.wf(),
        ensures
            r.wf(),
            r@ == self@.books,
    {
        &self.store
    }

    /// Takes in a book at `now`, and compares it with the books of the other venues: only the pairs
    /// of its own venue have changed. Fails where the numbers of a comparison cannot be expressed.
    pub fn on_book(&mut self, book: OrderBook, now: Instant, clock: &Clock) -> (r: Result<
        Outcome,
        Overflow,
    >)
        requires
            old(self).wf(),
        ensures
            final(self).wf(),
            final(self).setup() == old(self).setup(),
            final(self)@.books == old(self)@.books.insert((book.dex, book.symbol), book),
            r is Ok <==> forall|i: int|
                0 <= i < compared(old(self).setup(), book.dex).len() ==> store::stored_computable(
                    final(self)@.books,
                    book.symbol,
                    #[trigger] compared(old(self).setup(), book.dex)[i],
                    old(self).setup().vwap_notional,
                ),
            r matches Ok(outcome) ==> store::are_snapshots(
                final(self)@.books,
                book.symbol,
                compared(old(self).setup(), book.dex),
                book.dex,
                old(self).setup().vwap_notional,
                outcome.snapshots@,
            ),
            r is Err ==> final(self)@.watch == book_checked(
                old(self)@.watch,
                book,
                old(self).setup().latency_warn_ms,
                now,
                old(self).setup().warn_interval,
            ).0,
            r matches Ok(outcome) ==> ({
                let setup = old(self).setup();
                let (checked, warnings) = book_checked(
                    old(self)@.watch,
                    book,
                    setup.latency_warn_ms,
                    now,
                    setup.warn_interval,
                );
                (final(self)@.watch, outcome.warnings@) == snapshots_checked(
                    checked,
                    warnings,
                    outcome.snapshots@,
                    setup.staleness_warn_ms,
                    now,
                    setup.warn_interval,
                )
            }),
    {
        let ghost setup = self.setup();
        let trigger = book.dex;
        let symbol = book.symbol;
        let mut warnings: Vec<Warning> = Vec::new();
        let first = check_latency(
            &book,
            self.latency_warn_ms,
            &mut self.limiter,
            &mut self.stats,
            now,
        );
        if let Some(warning) = first {
            warnings.push(warning);
        }
        self.stats.books_processed = self.stats.books_processed.wrapping_add(1);
        let ghost (checked, early) = book_checked(
            old(self)@.watch,
            book,
            setup.latency_warn_ms,
            now,
            setup.warn_interval,
        );
        proof {
            assert(warnings@ =~= early);
            assert(self@.watch =~= checked);
        }
        self.store.update(book);
        let changed = pairs::pairs_involving(trigger, self.dexes.as_slice());
        proof {
            assert(changed@ == compared(setup, trigger));
            assert(self@.books == old(self)@.books.insert((trigger, symbol), book));
        }
        let snapshots = match self.store.checked_divergences(
            symbol,
            changed.as_slice(),
            trigger,
            self.vwap_notional,
            clock,
        ) {
            Ok(snapshots) => snapshots,
            Err(e) => return Err(e),
        };
        let n: usize = snapshots.len();
        let mut i: usize = 0;
        proof {
            assert(snapshots@.take(0) =~= Seq::<DivergenceSnapshot>::empty());
        }
        while i < n
            invariant
                i <= n,
                n == snapshots@.len(),
                self.wf(),
                self.setup() == setup,
                self@.books == old(self)@.books.insert((trigger, symbol), book),
                (self@.watch, warnings@) == snapshots_checked(
                    checked,
                    early,
                    snapshots@.take(i as int),
                    setup.staleness_warn_ms,
                    now,
                    setup.warn_interval,
                ),
            decreases n - i,
        {
            proof {
                assert(snapshots@.take(i + 1).drop_last() =~= snapshots@.take(i as int));
                assert(snapshots@.take(i + 1).last() == snapshots@[i as int]);
            }
            self.stats.snapshots_computed = self.stats.snapshots_computed.wrapping_add(1);
            let warning = check_staleness(
                &snapshots[i],
                self.staleness_warn_ms,
                &mut self.limiter,
                &mut self.stats,
                now,
            );
            if let Some(warning) = warning {
                warnings.push(warning);
            }
            i += 1;
        }
        proof {
            assert(snapshots@.take(n as int) =~= snapshots@);
        }
        Ok(Outcome { warnings, snapshots })
    }

    /// Notes that there was no room for a snapshot, so that it is known later what is missing.
    pub fn snapshot_dropped(&mut self, now: Instant) -> (r: Option<Warning>)
        requires
            old(self).wf(),
        ensures
            final(self).wf(),
            final(self).setup() == old(self).setup(),
            final(self)@.books == old(self)@.books,
            ({
                let w = old(self)@.watch;
                let interval = old(self).setup().warn_interval;
                let dropped_total = w.stats.snapshots_dropped.wrapping_add(1);
                &&& final(self)@.watch == (Watch {
                    stats: AggregatorStats { snapshots_dropped: dropped_total, ..w.stats },
                    passed: rate_limit::after(w.passed, "csv_backpressure"@, now, interval),
                })
                &&& r == match rate_limit::answer(w.passed, "csv_backpressure"@, now, interval) {
                    Some(suppressed) => Some(Warning::Backpressure { dropped_total, suppressed }),
                    None => None,
                }
            }),
    {
        self.stats.snapshots_dropped = self.stats.snapshots_dropped.wrapping_add(1);
        match self.limiter.allow_at("csv_backpressure", now) {
            Some(suppressed) => Some(
                Warning::Backpressure {
                    dropped_total: self.stats.snapshots_dropped,
                    suppressed,
                },
            ),
            None => None,
        }
    }
}

/// A book from the future is a matter of the clocks, never of the latency: at most one of the two is
/// counted.
pub proof fn law_skew_is_not_latency(
    w: Watch,
    book: OrderBook,
    warn_threshold_ms: i64,
    now: Instant,
    interval: Duration,
)
    ensures
        ({
            let after = latency_checked(w, book, warn_threshold_ms, now, interval).0.stats;
            after.clock_skew_warnings == w.stats.clock_skew_warnings || after.latency_warnings
                == w.stats.latency_warnings
        }),
{
}

/// It does not matter which of two books is the older one.
pub proof fn law_staleness_has_no_direction(delta_ms: i64, opposite_ms: i64, warn_threshold_ms: i64)
    requires
        delta_ms == -opposite_ms,
    ensures
        stale(delta_ms, warn_threshold_ms) == stale(opposite_ms, warn_threshold_ms),
{
}

/// What is counted and reported of the latency of a book: below zero, that the clocks disagree; above
/// the threshold, that it was under way for too long; else nothing. A report names the book's venue,
/// its instrument and the latency.
pub proof fn law_latency_is_counted_and_reported(
    w: Watch,
    book: OrderBook,
    warn_threshold_ms: i64,
    now: Instant,
    interval: Duration,
)
    ensures
        ({
            let (after, warning) = latency_checked(w, book, warn_threshold_ms, now, interval);
            let delay = book.trace.exchange_delay_ms();
            let skewed = delay matches Some(ms) && ms < 0;
            let late = delay matches Some(ms) && ms >= 0 && ms > warn_threshold_ms;
            &&& after.stats == (AggregatorStats {
                clock_skew_warnings: if skewed {
                    w.stats.clock_skew_warnings.wrapping_add(1)
                } else {
                    w.stats.clock_skew_warnings
                },
                latency_warnings: if late {
                    w.stats.latency_warnings.wrapping_add(1)
                } else {
                    w.stats.latency_warnings
                },
                ..w.stats
            })
            &&& !skewed && !late ==> warning is None && after.passed == w.passed
            &&& warning matches Some(Warning::ClockSkew { dex, symbol, latency_ms, .. }) ==> skewed
                && dex == book.dex && symbol == book.symbol && delay == Some(latency_ms)
            &&& warning matches Some(Warning::Latency { dex, symbol, latency_ms, .. }) ==> late
                && dex == book.dex && symbol == book.symbol && delay == Some(latency_ms)
            &&& !(warning matches Some(Warning::Staleness { .. })) && !(warning matches Some(
                Warning::Backpressure { .. },
            ))
            &&& skewed && !w.passed.contains_key("skew:"@ + book.dex.name()) ==> warning is Some
            &&& late && !w.passed.contains_key("latency:"@ + book.dex.name()) ==> warning is Some
        }),
{
}

/// Two books that differ in age by more than the threshold, either way, are counted and reported with
/// their difference; others are not.
pub proof fn law_staleness_is_counted_and_reported(
    w: Watch,
    snapshot: DivergenceSnapshot,
    warn_threshold_ms: i64,
    now: Instant,
    interval: Duration,
)
    ensures
        ({
            let (after, warning) = staleness_checked(
                w,
                snapshot,
                warn_threshold_ms,
                now,
                interval,
            );
            let size = if snapshot.staleness_delta_ms < 0 {
                -snapshot.staleness_delta_ms
            } else {
                snapshot.staleness_delta_ms as int
            };
            &&& warn_threshold_ms >= 0 ==> after.stats == (AggregatorStats {
                staleness_warnings: if size > warn_threshold_ms {
                    w.stats.staleness_warnings.wrapping_add(1)
                } else {
                    w.stats.staleness_warnings
                },
                ..w.stats
            })
            &&& warn_threshold_ms >= 0 && size <= warn_threshold_ms ==> warning is None
                && after.passed == w.passed
            &&& size > warn_threshold_ms && !w.passed.contains_key(
                "staleness:"@ + snapshot.symbol.name(),
            ) ==> warning is Some
            &&& warning matches Some(warning) ==> (warning matches Warning::Staleness {
                symbol,
                staleness_delta_ms,
                raw_spread_bps,
                ..
            } && symbol == snapshot.symbol && staleness_delta_ms == snapshot.staleness_delta_ms
                && raw_spread_bps == snapshot.raw_spread_bps)
        }),
{
}

/// Every snapshot is counted and looked at, however many there are: first those of one part of the
/// list, then those of the other.
pub proof fn law_snapshots_are_looked_at_in_turn(
    w: Watch,
    warnings: Seq<Warning>,
    first: Seq<DivergenceSnapshot>,
    second: Seq<DivergenceSnapshot>,
    warn_threshold_ms: i64,
    now: Instant,
    interval: Duration,
)
    ensures
        ({
            let (between, some) = snapshots_checked(
                w,
                warnings,
                first,
                warn_threshold_ms,
                now,
                interval,
            );
            snapshots_checked(w, warnings, first + second, warn_threshold_ms, now, interval)
                == snapshots_checked(between, some, second, warn_threshold_ms, now, interval)
        }),
    decreases second.len(),
{
    let all = first + second;
    if second.len() == 0 {
        assert(all =~= first);
    } else {
        assert(all.drop_last() =~= first + second.drop_last());
        assert(all.last() == second.last());
        law_snapshots_are_looked_at_in_turn(
            w,
            warnings,
            first,
            second.drop_last(),
            warn_threshold_ms,
            now,
            interval,
        );
    }
}

/// The count of snapshots goes up by as many as there are, and no other count but that of old books
/// changes.
pub proof fn law_every_snapshot_is_counted(
    w: Watch,
    warnings: Seq<Warning>,
    snapshots: Seq<DivergenceSnapshot>,
    warn_threshold_ms: i64,
    now: Instant,
    interval: Duration,
)
    requires
        w.stats.snapshots_computed + snapshots.len() <= u64::MAX,
    ensures
        ({
            let after = snapshots_checked(
                w,
                warnings,
                snapshots,
                warn_threshold_ms,
                now,
                interval,
            ).0;
            &&& after.stats.snapshots_computed == w.stats.snapshots_computed + snapshots.len()
            &&& after.stats == (AggregatorStats {
                snapshots_computed: after.stats.snapshots_computed,
                staleness_warnings: after.stats.staleness_warnings,
                ..w.stats
            })
        }),
    decreases snapshots.len(),
{
    if snapshots.len() > 0 {
        law_every_snapshot_is_counted(
            w,
            warnings,
            snapshots.drop_last(),
            warn_threshold_ms,
            now,
            interval,
        );
    }
}

/// Every book is counted, once, and its latency is looked at.
pub proof fn law_every_book_is_counted(
    w: Watch,
    book: OrderBook,
    warn_threshold_ms: i64,
    now: Instant,
    interval: Duration,
)
    ensures
        ({
            let (after, warnings) = book_checked(w, book, warn_threshold_ms, now, interval);
            let (checked, warning) = latency_checked(w, book, warn_threshold_ms, now, interval);
            &&& after.stats.books_processed == w.stats.books_processed.wrapping_add(1)
            &&& after.stats.clock_skew_warnings == checked.stats.clock_skew_warnings
            &&& after.stats.latency_warnings == checked.stats.latency_warnings
            &&& after.stats.snapshots_computed == w.stats.snapshots_computed
            &&& after.stats.snapshots_dropped == w.stats.snapshots_dropped
            &&& after.stats.staleness_warnings == w.stats.staleness_warnings
            &&& after.passed == checked.passed
            &&& warning is None ==> warnings.len() == 0
            &&& warning matches Some(one) ==> warnings == seq![one]
        }),
{
    let warning = latency_checked(w, book, warn_threshold_ms, now, interval).1;
    if let Some(one) = warning {
        assert(Seq::<Warning>::empty().push(one) =~= seq![one]);
    }
}

/// A book is compared with those of every other venue that is collected from, each pair once and in
/// canonical order, and with nothing else.
pub proof fn law_book_is_compared_with_every_other_venue(setup: Setup, dex: Dex, pair: (Dex, Dex))
    ensures
        compared(setup, dex).contains(pair) <==> setup.dexes.contains(pair.0)
            && setup.dexes.contains(pair.1) && pair.0.rank() < pair.1.rank() && (pair.0 == dex
            || pair.1 == dex),
{
    pairs::law_pairs_are_canonical(setup.dexes, pair.0, pair.1);
    lemma_filter_contains(
        pairs::pairs_of(pairs::unique(setup.dexes)),
        |p: (Dex, Dex)| pairs::involves(p, dex),
        pair,
    );
}

proof fn lemma_filter_contains(
    pairs: Seq<(Dex, Dex)>,
    wanted: spec_fn((Dex, Dex)) -> bool,
    pair: (Dex, Dex),
)
    ensures
        pairs.filter(wanted).contains(pair) <==> pairs.contains(pair) && wanted(pair),
    decreases pairs.len(),
{
    reveal(Seq::filter);
    if pairs.len() > 0 {
        let front = pairs.drop_last();
        lemma_filter_contains(front, wanted, pair);
        let (kept, all) = (front.filter(wanted), pairs.filter(wanted));
        assert(pairs[pairs.len() - 1] == pairs.last());
        if front.contains(pair) {
            let k = choose|k: int| 0 <= k < front.len() && front[k] == pair;
            assert(pairs[k] == pair);
        }
        if pairs.contains(pair) && pair != pairs.last() {
            let k = choose|k: int| 0 <= k < pairs.len() && pairs[k] == pair;
            assert(front[k] == pair);
        }
        if wanted(pairs.last()) {
            assert(all == kept.push(pairs.last()));
            assert(all[kept.len() as int] == pairs.last());
            if kept.contains(pair) {
                let k = choose|k: int| 0 <= k < kept.len() && kept[k] == pair;
                assert(all[k] == pair);
            }
            if all.contains(pair) && pair != pairs.last() {
                let k = choose|k: int| 0 <= k < all.len() && all[k] == pair;
                assert(kept[k] == pair);
            }
        }
    }
}

} // verus!
