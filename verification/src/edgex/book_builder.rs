//! The book of one instrument, rebuilt from snapshots and changes.
//!
//! A mistake here would show as a book that slowly drifts away, so three things guard it: the
//! versions of the changes must follow on each other, a new snapshot is compared with the book that
//! it replaces, and levels beyond the subscribed ones are dropped.

use vstd::prelude::*;

use crate::book;
use crate::book::{Level, OrderBook, Side};
use crate::edgex::message::DepthData;
use crate::ladder;
use crate::ladder::Ladder;
use crate::symbol::{Dex, Symbol};
use crate::text;
use crate::time::{Clock, Instant};
use crate::trace::MessageTrace;
use crate::wire;

verus! {

/// How a snapshot compares with the book that it replaces.
#[derive(Clone, Copy, Debug, PartialEq, Eq, Structural)]
pub struct SnapshotCheck {
    /// Whether there was a book.
    pub was_initialized: bool,
    /// How many of the best levels differ; none, where the rebuilding is sound.
    pub mismatched_levels: usize,
}

/// Why a change could not be applied. The remedy is a new subscription.
#[derive(Clone, Copy, Debug, PartialEq, Eq, Structural)]
pub enum ApplyError {
    /// No snapshot has come in.
    NotInitialized,
    /// The change does not follow on the one before.
    VersionGap { expected: u64, got: Option<u64> },
}

/// How many of the best levels of each side are compared.
pub const CHECK_DEPTH: usize = 5;

/// The book and its version.
pub struct State {
    pub bids: Seq<Level>,
    pub asks: Seq<Level>,
    pub last_version: Option<u64>,
    pub initialized: bool,
}

/// The state before anything has come in.
pub open spec fn initial() -> State {
    State {
        bids: Seq::empty(),
        asks: Seq::empty(),
        last_version: None,
        initialized: false,
    }
}

/// The state that the snapshot `data` gives, `max` levels kept on each side.
pub open spec fn replaced(data: DepthData, max: nat) -> State {
    State {
        bids: ladder::first_of(ladder::listed(Side::Bid, ladder::pairs(data.bids@)), max),
        asks: ladder::first_of(ladder::listed(Side::Ask, ladder::pairs(data.asks@)), max),
        last_version: wire::value_of(data.end_version),
        initialized: true,
    }
}

/// The state with the change `data` made, `max` levels kept on each side.
pub open spec fn changed(s: State, data: DepthData, max: nat) -> State {
    State {
        bids: ladder::first_of(ladder::updated(Side::Bid, s.bids, ladder::pairs(data.bids@)), max),
        asks: ladder::first_of(ladder::updated(Side::Ask, s.asks, ladder::pairs(data.asks@)), max),
        last_version: match wire::value_of(data.end_version) {
            Some(n) => Some(n),
            None => s.last_version,
        },
        initialized: true,
    }
}

/// Why the change `data` cannot be applied. Versions are compared only where both are there.
pub open spec fn refusal(s: State, data: DepthData) -> Option<ApplyError> {
    if !s.initialized {
        Some(ApplyError::NotInitialized)
    } else {
        match (s.last_version, wire::value_of(data.start_version)) {
            (Some(expected), Some(start)) => if start != expected {
                Some(ApplyError::VersionGap { expected, got: Some(start) })
            } else {
                None
            },
            _ => None,
        }
    }
}

/// The level at place `i`, where there is one.
pub open spec fn level_at(levels: Seq<Level>, i: int) -> Option<Level> {
    if 0 <= i < levels.len() {
        Some(levels[i])
    } else {
        None
    }
}

/// At how many of the first `n` places `a` and `b` differ.
pub open spec fn differing(a: Seq<Level>, b: Seq<Level>, n: nat) -> nat
    decreases n,
{
    if n == 0 {
        0
    } else {
        let last = n - 1;
        differing(a, b, last as nat) + if level_at(a, last) != level_at(b, last) {
            1nat
        } else {
            0
        }
    }
}

/// At how many of the best places `a` and `b` differ.
pub fn count_mismatches(a: &Ladder, b: &Ladder) -> (r: usize)
    ensures
        r == differing(a@, b@, CHECK_DEPTH as nat),
        r <= CHECK_DEPTH,
{
    let mut count: usize = 0;
    let mut i: usize = 0;
    while i < CHECK_DEPTH
        invariant
            i <= CHECK_DEPTH,
            count <= i,
            count == differing(a@, b@, i as nat),
        decreases CHECK_DEPTH - i,
    {
        let same = if i < a.len() {
            i < b.len() && a.level(i) == b.level(i)
        } else {
            i >= b.len()
        };
        if !same {
            count += 1;
        }
        i += 1;
    }
    count
}

/// The book of one instrument.
pub struct BookBuilder {
    symbol: Symbol,
    bids: Ladder,
    asks: Ladder,
    last_version: Option<u64>,
    initialized: bool,
    max_levels: usize,
}

impl View for BookBuilder {
    type V = State;

    closed spec fn view(&self) -> State {
        State {
            bids: self.bids@,
            asks: self.asks@,
            last_version: self.last_version,
            initialized: self.initialized,
        }
    }
}

impl BookBuilder {
    /// The instrument.
    pub closed spec fn symbol_of(self) -> Symbol {
        self.symbol
    }

    /// How many levels are kept on each side.
    pub closed spec fn max(self) -> nat {
        self.max_levels as nat
    }

    /// Whether both sides are in order and none has more levels than are kept.
    pub closed spec fn wf(self) -> bool {
        &&& self.bids.wf() && self.bids.side_of() == Side::Bid
        &&& self.asks.wf() && self.asks.side_of() == Side::Ask
        &&& self.max_levels >= 1
        &&& self.bids@.len() <= self.max_levels
        &&& self.asks@.len() <= self.max_levels
    }

    /// Whatever comes in, the best level stands first on each side, no quantity is zero or less, and no
    /// more levels are kept than were asked for: the book does not grow with time.
    pub proof fn law_book_is_in_order_and_bounded(self)
        requires
            self.wf(),
        ensures
            ladder::best_first(Side::Bid, self@.bids),
            ladder::best_first(Side::Ask, self@.asks),
            book::all_positive(self@.bids),
            book::all_positive(self@.asks),
            self@.bids.len() <= self.max(),
            self@.asks.len() <= self.max(),
    {
    }

    /// An empty book that keeps `max_levels` levels on each side, one at least.
    pub fn new(symbol: Symbol, max_levels: usize) -> (r: BookBuilder)
        ensures
            r.wf(),
            r.symbol_of() == symbol,
            r.max() == if max_levels == 0 { 1 } else { max_levels as nat },
            r@ == initial(),
    {
        BookBuilder {
            symbol,
            bids: Ladder::new(Side::Bid),
            asks: Ladder::new(Side::Ask),
            last_version: None,
            initialized: false,
            max_levels: if max_levels == 0 { 1 } else { max_levels },
        }
    }

    /// The instrument.
    pub fn symbol(&self) -> (r: Symbol)
        ensures
            r == self.symbol_of(),
    {
        self.symbol
    }

    /// Whether a snapshot has come in.
    pub fn is_initialized(&self) -> (r: bool)
        ensures
            r == self@.initialized,
    {
        self.initialized
    }

    /// The version of the book.
    pub fn last_version(&self) -> (r: Option<u64>)
        ensures
            r == self@.last_version,
    {
        self.last_version
    }

    /// Drops the book.
    pub fn reset(&mut self)
        requires
            old(self).wf(),
        ensures
            final(self).wf(),
            final(self).symbol_of() == old(self).symbol_of(),
            final(self).max() == old(self).max(),
            final(self)@ == initial(),
    {
        self.bids.clear();
        self.asks.clear();
        self.last_version = None;
        self.initialized = false;
    }

    /// Puts a snapshot in place of the book, and compares the two.
    pub fn apply_snapshot(&mut self, depth: &DepthData) -> (r: SnapshotCheck)
        requires
            old(self).wf(),
        ensures
            final(self).wf(),
            final(self).symbol_of() == old(self).symbol_of(),
            final(self).max() == old(self).max(),
            final(self)@ == replaced(*depth, old(self).max()),
            r.was_initialized == old(self)@.initialized,
            r.mismatched_levels == if old(self)@.initialized {
                differing(
                    old(self)@.bids,
                    ladder::listed(Side::Bid, ladder::pairs(depth.bids@)),
                    CHECK_DEPTH as nat,
                ) + differing(
                    old(self)@.asks,
                    ladder::listed(Side::Ask, ladder::pairs(depth.asks@)),
                    CHECK_DEPTH as nat,
                )
            } else {
                0
            },
    {
        let mut bids = Ladder::new(Side::Bid);
        let mut asks = Ladder::new(Side::Ask);
        bids.replace(&depth.bids);
        asks.replace(&depth.asks);
        let check = SnapshotCheck {
            was_initialized: self.initialized,
            mismatched_levels: if self.initialized {
                count_mismatches(&self.bids, &bids) + count_mismatches(&self.asks, &asks)
            } else {
                0
            },
        };
        bids.truncate(self.max_levels);
        asks.truncate(self.max_levels);
        self.bids = bids;
        self.asks = asks;
        self.last_version = depth.end_version_u64();
        self.initialized = true;
        check
    }

    /// Makes a change to the book.
    pub fn apply_diff(&mut self, depth: &DepthData) -> (r: Result<(), ApplyError>)
        requires
            old(self).wf(),
        ensures
            final(self).wf(),
            final(self).symbol_of() == old(self).symbol_of(),
            final(self).max() == old(self).max(),
            r == match refusal(old(self)@, *depth) {
                Some(e) => Err(e),
                None => Ok(()),
            },
            final(self)@ == if r is Ok {
                changed(old(self)@, *depth, old(self).max())
            } else {
                old(self)@
            },
    {
        if !self.initialized {
            return Err(ApplyError::NotInitialized);
        }
        match (self.last_version, depth.start_version_u64()) {
            (Some(expected), Some(start)) => {
                if start != expected {
                    return Err(ApplyError::VersionGap { expected, got: Some(start) });
                }
            },
            _ => {},
        }
        self.bids.update(&depth.bids);
        self.asks.update(&depth.asks);
        if let Some(end) = depth.end_version_u64() {
            self.last_version = Some(end);
        }
        self.bids.truncate(self.max_levels);
        self.asks.truncate(self.max_levels);
        Ok(())
    }

    /// The best `depth` levels of each side as an order book that was ready at `at`.
    pub fn order_book_at(
        &self,
        depth: usize,
        exchange_ts_ms: Option<u64>,
        trace: MessageTrace,
        at: Instant,
    ) -> (r: OrderBook)
        requires
            self.wf(),
        ensures
            r.dex == Dex::EdgeX,
            r.symbol == self.symbol_of(),
            r.bids@ == ladder::first_of(self@.bids, depth as nat),
            r.asks@ == ladder::first_of(self@.asks, depth as nat),
            r.trace == (MessageTrace { exchange_ts_ms, normalized_instant: Some(at), ..trace }),
            r.fault_but_crossing() is None,
    {
        let mut trace = trace;
        trace.set_exchange_ts_ms(exchange_ts_ms);
        trace.mark_normalized_at(at);
        OrderBook::new(Dex::EdgeX, self.symbol, self.bids.top(depth), self.asks.top(depth), trace)
    }

    /// The best `depth` levels of each side as an order book.
    pub fn to_order_book(
        &self,
        depth: usize,
        exchange_ts_ms: Option<u64>,
        trace: MessageTrace,
        clock: &Clock,
    ) -> (r: OrderBook)
        requires
            self.wf(),
        ensures
            r.dex == Dex::EdgeX,
            r.symbol == self.symbol_of(),
            r.bids@ == ladder::first_of(self@.bids, depth as nat),
            r.asks@ == ladder::first_of(self@.asks, depth as nat),
            r.trace.normalized_instant is Some,
            r.trace == (MessageTrace {
                exchange_ts_ms,
                normalized_instant: r.trace.normalized_instant,
                ..trace
            }),
            r.fault_but_crossing() is None,
    {
        self.order_book_at(depth, exchange_ts_ms, trace, clock.now())
    }
}

impl ApplyError {
    /// The error in words.
    pub fn message(&self) -> (r: String)
        ensures
            r@ == match *self {
                ApplyError::NotInitialized => "スナップショット未受信のまま差分が届いた"@,
                ApplyError::VersionGap { expected, got: Some(got) } => "バージョン欠損: expected="@
                    + text::digits(expected as nat) + ", got=Some("@ + text::digits(got as nat) + ")"@,
                ApplyError::VersionGap { expected, got: None } => "バージョン欠損: expected="@
                    + text::digits(expected as nat) + ", got=None"@,
            },
    {
        match self {
            ApplyError::NotInitialized => "スナップショット未受信のまま差分が届いた".to_owned(),
            ApplyError::VersionGap { expected, got } => {
                let mut out = "バージョン欠損: expected=".to_owned();
                out.append(text::number_text(*expected).as_str());
                match got {
                    Some(got) => {
                        out.append(", got=Some(");
                        out.append(text::number_text(*got).as_str());
                        out.append(")");
                    },
                    None => {
                        out.append(", got=None");
                    },
                }
                out
            },
        }
    }
}

/// A snapshot that shows the book as it is has no mismatch.
pub proof fn law_no_mismatch_when_in_step(levels: Seq<Level>, n: nat)
    ensures
        differing(levels, levels, n) == 0,
    decreases n,
{
    if n > 0 {
        law_no_mismatch_when_in_step(levels, (n - 1) as nat);
    }
}

proof fn lemma_same_places(a: Seq<Level>, b: Seq<Level>, n: nat)
    requires
        differing(a, b, n) == 0,
    ensures
        forall|i: int| 0 <= i < n ==> #[trigger] level_at(a, i) == level_at(b, i),
    decreases n,
{
    if n > 0 {
        lemma_same_places(a, b, (n - 1) as nat);
    }
}

/// No difference among the places that are compared means that the best levels are the same.
pub proof fn law_no_mismatch_means_same_levels(a: Seq<Level>, b: Seq<Level>, n: nat)
    requires
        differing(a, b, n) == 0,
    ensures
        ladder::first_of(a, n) == ladder::first_of(b, n),
{
    lemma_same_places(a, b, n);
    let (p, q) = (ladder::first_of(a, n), ladder::first_of(b, n));
    assert(p.len() == q.len()) by {
        if a.len() < n {
            assert(level_at(a, a.len() as int) == level_at(b, a.len() as int));
            if a.len() > 0 {
                assert(level_at(a, a.len() - 1) == level_at(b, a.len() - 1));
            }
        } else if n > 0 {
            assert(level_at(a, n - 1) == level_at(b, n - 1));
        }
    }
    assert forall|i: int| 0 <= i < p.len() implies p[i] == q[i] by {
        assert(level_at(a, i) == level_at(b, i));
    }
    assert(p =~= q);
}

/// A snapshot gives at every price of either side what its last quote there offers, and takes over
/// the version that it ends at.
pub proof fn law_snapshot_shows_its_quotes(data: DepthData, max: nat)
    ensures
        ({
            let after = replaced(data, max);
            &&& ladder::is_listing(Side::Bid, ladder::pairs(data.bids@), after.bids, max)
            &&& ladder::is_listing(Side::Ask, ladder::pairs(data.asks@), after.asks, max)
            &&& after.initialized
            &&& after.last_version == wire::value_of(data.end_version)
        }),
{
    ladder::law_listing_takes_every_quote(Side::Bid, ladder::pairs(data.bids@), max);
    ladder::law_listing_takes_every_quote(Side::Ask, ladder::pairs(data.asks@), max);
}

/// A change gives every price that it names, on the side on which it names it, the quantity that it
/// names last, and leaves all others as they were.
pub proof fn law_change_settles_what_it_names(s: State, data: DepthData, max: nat)
    requires
        ladder::best_first(Side::Bid, s.bids) && book::all_positive(s.bids),
        ladder::best_first(Side::Ask, s.asks) && book::all_positive(s.asks),
    ensures
        ({
            let after = changed(s, data, max);
            &&& ladder::is_update(Side::Bid, s.bids, ladder::pairs(data.bids@), after.bids, max)
            &&& ladder::is_update(Side::Ask, s.asks, ladder::pairs(data.asks@), after.asks, max)
            &&& after.initialized
            &&& after.last_version == wire::value_of(data.end_version) || (wire::value_of(
                data.end_version,
            ) is None && after.last_version == s.last_version)
        }),
{
    ladder::law_update_makes_every_change(Side::Bid, s.bids, ladder::pairs(data.bids@), max);
    ladder::law_update_makes_every_change(Side::Ask, s.asks, ladder::pairs(data.asks@), max);
}

/// After data that ends at a version, a change is accepted exactly where it starts at that version,
/// where it names one; else both versions are reported.
pub proof fn law_next_change_starts_where_this_one_ends(
    s: State,
    data: DepthData,
    max: nat,
    next: DepthData,
    end: u64,
    start: u64,
)
    requires
        wire::value_of(data.end_version) == Some(end),
        wire::value_of(next.start_version) == Some(start),
    ensures
        refusal(changed(s, data, max), next) == if start == end {
            None
        } else {
            Some(ApplyError::VersionGap { expected: end, got: Some(start) })
        },
        refusal(replaced(data, max), next) == if start == end {
            None
        } else {
            Some(ApplyError::VersionGap { expected: end, got: Some(start) })
        },
{
}

/// Before a snapshot no change is accepted.
pub proof fn law_changes_wait_for_a_snapshot(data: DepthData)
    ensures
        refusal(initial(), data) == Some(ApplyError::NotInitialized),
{
}

/// Every place that differs is counted once: no more than are compared, all where all differ, and one
/// where one does.
pub proof fn law_every_mismatch_is_counted(a: Seq<Level>, b: Seq<Level>, n: nat, i: int)
    ensures
        differing(a, b, n) <= n,
        (forall|k: int| 0 <= k < n ==> #[trigger] level_at(a, k) != level_at(b, k)) ==> differing(
            a,
            b,
            n,
        ) == n,
        0 <= i < n && level_at(a, i) != level_at(b, i) && (forall|k: int|
            0 <= k < n && k != i ==> #[trigger] level_at(a, k) == level_at(b, k)) ==> differing(
            a,
            b,
            n,
        ) == 1,
    decreases n,
{
    if n > 0 {
        law_every_mismatch_is_counted(a, b, (n - 1) as nat, i);
        assert(level_at(a, n - 1) == level_at(a, n - 1));
        if i == n - 1 && (forall|k: int|
            0 <= k < n && k != i ==> #[trigger] level_at(a, k) == level_at(b, k)) {
            lemma_nothing_differs(a, b, (n - 1) as nat);
        }
    }
}

proof fn lemma_nothing_differs(a: Seq<Level>, b: Seq<Level>, n: nat)
    requires
        forall|k: int| 0 <= k < n ==> #[trigger] level_at(a, k) == level_at(b, k),
    ensures
        differing(a, b, n) == 0,
    decreases n,
{
    if n > 0 {
        lemma_nothing_differs(a, b, (n - 1) as nat);
        assert(level_at(a, n - 1) == level_at(b, n - 1));
    }
}

/// The places of the first `n` that differ among the first and behind them make up all of them.
pub proof fn law_mismatches_add_up(a: Seq<Level>, b: Seq<Level>, n: nat, m: nat)
    requires
        n <= a.len(),
        n <= b.len(),
    ensures
        differing(a, b, n + m) == differing(a, b, n) + differing(
            a.skip(n as int),
            b.skip(n as int),
            m,
        ),
    decreases m,
{
    if m > 0 {
        law_mismatches_add_up(a, b, n, (m - 1) as nat);
        let k = m - 1;
        assert(level_at(a.skip(n as int), k) == level_at(a, n + k));
        assert(level_at(b.skip(n as int), k) == level_at(b, n + k));
    }
}

} // verus!
