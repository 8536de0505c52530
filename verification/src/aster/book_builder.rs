//! The book of one instrument, rebuilt from a snapshot and changes.
//!
//! 1. Changes are buffered until a snapshot is there.
//! 2. A buffered change that ends before the snapshot is dropped.
//! 3. The first change that is applied must straddle the snapshot's update id.
//! 4. Every later change must follow on the one before; where it does not, changes were lost and a
//!    new snapshot is needed.
//!
//! Out of this order the book would drift away from the venue's without a sign, so every deviation
//! is an error.

use std::collections::VecDeque;

use vstd::prelude::*;

use crate::aster::message::{DepthEvent, DepthSnapshot, RawLevel};
use crate::book;
use crate::book::{Level, OrderBook, Side};
use crate::decimal::Decimal;
use crate::ladder;
use crate::ladder::{Ladder, Quote};
use crate::symbol::{Dex, Symbol};
use crate::text;
use crate::time::{Clock, Instant};
use crate::trace::MessageTrace;

verus! {

/// How far the book has come.
#[derive(Clone, Copy, Debug, PartialEq, Eq, Structural)]
pub enum BookPhase {
    /// No snapshot yet: changes are buffered.
    AwaitingSnapshot,
    /// A snapshot is there, no change has been applied to it yet.
    AwaitingFirstEvent { last_update_id: u64 },
    /// Changes are applied one after the other.
    Streaming { last_update_id: u64 },
}

/// What became of a change.
#[derive(Clone, Copy, Debug, PartialEq, Eq, Structural)]
pub enum ApplyOutcome {
    /// Kept until there is a snapshot.
    Buffered,
    /// Older than the book.
    Discarded,
    /// Applied to the book.
    Applied,
}

/// Why a change could not be applied. The remedy is a new snapshot.
#[derive(Clone, Copy, Debug, PartialEq, Eq, Structural)]
pub enum ApplyError {
    /// Changes between the snapshot and the first change are missing.
    SnapshotTooOld { last_update_id: u64, first_update_id: u64 },
    /// The change does not follow on the one before.
    SequenceGap { expected: u64, got: u64 },
}

/// How many changes are buffered at most. The oldest go first; the gap that they leave shows when
/// the others are applied.
pub const MAX_BUFFERED_EVENTS: usize = 2000;

/// What a change says.
pub struct Change {
    pub first: u64,
    pub last: u64,
    pub prev: Option<u64>,
    pub time_ms: Option<u64>,
    pub bids: Seq<Option<(Decimal, Decimal)>>,
    pub asks: Seq<Option<(Decimal, Decimal)>>,
}

/// The book and how far it has come.
pub struct State {
    pub bids: Seq<Level>,
    pub asks: Seq<Level>,
    pub phase: BookPhase,
    pub buffer: Seq<Change>,
    pub exchange_ts_ms: Option<u64>,
}

/// The state before anything has come in.
pub open spec fn initial() -> State {
    State {
        bids: Seq::empty(),
        asks: Seq::empty(),
        phase: BookPhase::AwaitingSnapshot,
        buffer: Seq::empty(),
        exchange_ts_ms: None,
    }
}

/// What `event` says.
pub open spec fn change_of(event: DepthEvent) -> Change {
    Change {
        first: event.first_update_id,
        last: event.final_update_id,
        prev: event.prev_final_update_id,
        time_ms: event.event_time_ms,
        bids: ladder::pairs(event.bids@),
        asks: ladder::pairs(event.asks@),
    }
}

/// The state with `change` made to the book, of which `max` levels a side are kept.
pub open spec fn applied(s: State, change: Change, max: nat) -> State {
    State {
        bids: ladder::first_of(ladder::updated(Side::Bid, s.bids, change.bids), max),
        asks: ladder::first_of(ladder::updated(Side::Ask, s.asks, change.asks), max),
        phase: BookPhase::Streaming { last_update_id: change.last },
        buffer: s.buffer,
        exchange_ts_ms: if change.time_ms is Some { change.time_ms } else { s.exchange_ts_ms },
    }
}

/// The buffer with `change` added, the oldest one dropped where the buffer is full.
pub open spec fn buffered(buffer: Seq<Change>, change: Change) -> Seq<Change> {
    if buffer.len() >= MAX_BUFFERED_EVENTS {
        buffer.drop_first().push(change)
    } else {
        buffer.push(change)
    }
}

/// The state after `change`, and what became of it.
pub open spec fn step(s: State, change: Change, max: nat) -> (
    State,
    Result<ApplyOutcome, ApplyError>,
) {
    match s.phase {
        BookPhase::AwaitingSnapshot => (
            State { buffer: buffered(s.buffer, change), ..s },
            Ok(ApplyOutcome::Buffered),
        ),
        BookPhase::AwaitingFirstEvent { last_update_id } => if change.last < last_update_id {
            (s, Ok(ApplyOutcome::Discarded))
        } else if change.first > last_update_id {
            (
                s,
                Err(
                    ApplyError::SnapshotTooOld { last_update_id, first_update_id: change.first },
                ),
            )
        } else {
            (applied(s, change, max), Ok(ApplyOutcome::Applied))
        },
        BookPhase::Streaming { last_update_id } => if change.last <= last_update_id {
            (s, Ok(ApplyOutcome::Discarded))
        } else if change.prev is Some && change.prev != Some(last_update_id) {
            (
                s,
                Err(
                    ApplyError::SequenceGap {
                        expected: last_update_id,
                        got: change.prev.unwrap(),
                    },
                ),
            )
        } else {
            (applied(s, change, max), Ok(ApplyOutcome::Applied))
        },
    }
}

/// The state after `changes`, up to the first one that cannot be applied, and the error of that
/// one.
pub open spec fn replayed(s: State, changes: Seq<Change>, max: nat) -> (
    State,
    Result<(), ApplyError>,
)
    decreases changes.len(),
{
    if changes.len() == 0 {
        (s, Ok(()))
    } else {
        match step(s, changes[0], max) {
            (next, Ok(_)) => replayed(next, changes.drop_first(), max),
            (next, Err(e)) => (next, Err(e)),
        }
    }
}

/// The state that `snapshot` gives, before any buffered change.
pub open spec fn started(snapshot: DepthSnapshot, max: nat) -> State {
    State {
        bids: ladder::first_of(
            ladder::listed(Side::Bid, ladder::pairs(snapshot.bids@)),
            max,
        ),
        asks: ladder::first_of(
            ladder::listed(Side::Ask, ladder::pairs(snapshot.asks@)),
            max,
        ),
        phase: BookPhase::AwaitingFirstEvent { last_update_id: snapshot.last_update_id },
        buffer: Seq::empty(),
        exchange_ts_ms: snapshot.event_time_ms,
    }
}

/// A change as it is kept.
struct Kept {
    first: u64,
    last: u64,
    prev: Option<u64>,
    time_ms: Option<u64>,
    bids: Vec<Option<(Decimal, Decimal)>>,
    asks: Vec<Option<(Decimal, Decimal)>>,
}

impl View for Kept {
    type V = Change;

    closed spec fn view(&self) -> Change {
        Change {
            first: self.first,
            last: self.last,
            prev: self.prev,
            time_ms: self.time_ms,
            bids: self.bids@,
            asks: self.asks@,
        }
    }
}

fn parts_of(levels: &Vec<RawLevel>) -> (r: Vec<Option<(Decimal, Decimal)>>)
    ensures
        r@ == ladder::pairs(levels@),
{
    let n: usize = levels.len();
    let mut out: Vec<Option<(Decimal, Decimal)>> = Vec::new();
    let mut i: usize = 0;
    while i < n
        invariant
            i <= n,
            n == levels@.len(),
            out@ =~= ladder::pairs(levels@).take(i as int),
        decreases n - i,
    {
        out.push(levels[i].parts());
        i += 1;
    }
    proof {
        assert(out@ =~= ladder::pairs(levels@));
    }
    out
}

/// The book of one instrument.
pub struct AsterBookBuilder {
    symbol: Symbol,
    bids: Ladder,
    asks: Ladder,
    phase: BookPhase,
    buffer: VecDeque<Kept>,
    max_levels: usize,
    exchange_ts_ms: Option<u64>,
}

impl View for AsterBookBuilder {
    type V = State;

    closed spec fn view(&self) -> State {
        State {
            bids: self.bids@,
            asks: self.asks@,
            phase: self.phase,
            buffer: self.buffer@.map_values(|k: Kept| k@),
            exchange_ts_ms: self.exchange_ts_ms,
        }
    }
}

impl AsterBookBuilder {
    /// The instrument.
    pub closed spec fn symbol_of(self) -> Symbol {
        self.symbol
    }

    /// How many levels are kept on each side.
    pub closed spec fn max(self) -> nat {
        self.max_levels as nat
    }

    /// Whether both sides are in order, none has more levels than are kept, and no more changes are
    /// buffered than may be.
    pub closed spec fn wf(self) -> bool {
        &&& self.bids.wf() && self.bids.side_of() == Side::Bid
        &&& self.asks.wf() && self.asks.side_of() == Side::Ask
        &&& self.max_levels >= 1
        &&& self.bids@.len() <= self.max_levels
        &&& self.asks@.len() <= self.max_levels
        &&& self.buffer@.len() <= MAX_BUFFERED_EVENTS
    }

    /// Whatever comes in, the best level stands first on each side, no quantity is zero or less, and
    /// neither levels nor buffered changes are kept beyond a limit: the book does not grow with time.
    pub proof fn law_book_is_in_order_and_bounded(self)
        requires
            self.wf(),
        ensures
            ladder::best_first(Side::Bid, self@.bids),
            ladder::best_first(Side::Ask, self@.asks),
            book::all_positive(self@.bids),
            book::all_positive(self@.asks),
            self@.bids.len() <= self.max(),
            self@.asks.len() <= self.max(),
            self@.buffer.len() <= MAX_BUFFERED_EVENTS,
    {
    }

    /// An empty book that keeps `max_levels` levels on each side, one at least.
    pub fn new(symbol: Symbol, max_levels: usize) -> (r: AsterBookBuilder)
        ensures
            r.wf(),
            r.symbol_of() == symbol,
            r.max() == if max_levels == 0 { 1 } else { max_levels as nat },
            r@ == initial(),
    {
        let r = AsterBookBuilder {
            symbol,
            bids: Ladder::new(Side::Bid),
            asks: Ladder::new(Side::Ask),
            phase: BookPhase::AwaitingSnapshot,
            buffer: VecDeque::new(),
            max_levels: if max_levels == 0 { 1 } else { max_levels },
            exchange_ts_ms: None,
        };
        proof {
            assert(r@.buffer =~= Seq::empty());
        }
        r
    }

    /// The instrument.
    pub fn symbol(&self) -> (r: Symbol)
        ensures
            r == self.symbol_of(),
    {
        self.symbol
    }

    /// How far the book has come.
    pub fn phase(&self) -> (r: BookPhase)
        ensures
            r == self@.phase,
    {
        self.phase
    }

    /// Whether there is a book to show: a snapshot has come in.
    pub fn has_book(&self) -> (r: bool)
        ensures
            r == !(self@.phase is AwaitingSnapshot),
    {
        !matches!(self.phase, BookPhase::AwaitingSnapshot)
    }

    /// How many changes are buffered.
    pub fn buffered_len(&self) -> (r: usize)
        ensures
            r == self@.buffer.len(),
    {
        self.buffer.len()
    }

    /// Drops the book and waits for a snapshot again.
    pub fn reset(&mut self)
        requires
            old(self).wf(),
        ensures
            final(self).wf(),
            final(self).symbol_of() == old(self).symbol_of(),
            final(self).max() == old(self).max(),
            final(self)@ == initial(),
    {
        self.bids.clear();
        self.asks.clear();
        self.buffer.clear();
        self.phase = BookPhase::AwaitingSnapshot;
        self.exchange_ts_ms = None;
        proof {
            assert(self@.buffer =~= Seq::empty());
        }
    }

    /// Puts `snapshot` in place of the book and applies the buffered changes to it. Where one of
    /// them cannot be applied, the rest is dropped.
    pub fn apply_snapshot(&mut self, snapshot: &DepthSnapshot) -> (r: Result<(), ApplyError>)
        requires
            old(self).wf(),
        ensures
            final(self).wf(),
            final(self).symbol_of() == old(self).symbol_of(),
            final(self).max() == old(self).max(),
            (final(self)@, r) == replayed(
                started(*snapshot, old(self).max()),
                old(self)@.buffer,
                old(self).max(),
            ),
    {
        self.bids.replace(&snapshot.bids);
        self.asks.replace(&snapshot.asks);
        self.bids.truncate(self.max_levels);
        self.asks.truncate(self.max_levels);
        self.phase = BookPhase::AwaitingFirstEvent { last_update_id: snapshot.last_update_id };
        self.exchange_ts_ms = snapshot.event_time_ms;
        let mut kept: VecDeque<Kept> = VecDeque::new();
        std::mem::swap(&mut self.buffer, &mut kept);
        let ghost max = self.max();
        let ghost all = kept@.map_values(|k: Kept| k@);
        let ghost start = started(*snapshot, max);
        proof {
            assert(all =~= old(self)@.buffer);
            assert(self@.buffer =~= Seq::empty());
        }
        while kept.len() > 0
            invariant
                self.wf(),
                !(self@.phase is AwaitingSnapshot),
                self.symbol_of() == old(self).symbol_of(),
                self.max() == max,
                max == old(self).max(),
                all == old(self)@.buffer,
                start == started(*snapshot, max),
                self@.buffer.len() == 0,
                replayed(start, all, max) == replayed(
                    self@,
                    kept@.map_values(|k: Kept| k@),
                    max,
                ),
            decreases kept@.len(),
        {
            let ghost rest = kept@.map_values(|k: Kept| k@);
            let front = kept.pop_front();
            if let Some(change) = front {
                proof {
                    assert(rest[0] == change@);
                    assert(rest.drop_first() =~= kept@.map_values(|k: Kept| k@));
                }
                match self.apply(change) {
                    Ok(_) => {},
                    Err(e) => return Err(e),
                }
            }
        }
        Ok(())
    }

    fn apply(&mut self, change: Kept) -> (r: Result<ApplyOutcome, ApplyError>)
        requires
            old(self).wf(),
        ensures
            final(self).wf(),
            final(self).symbol_of() == old(self).symbol_of(),
            final(self).max() == old(self).max(),
            (final(self)@, r) == step(old(self)@, change@, old(self).max()),
    {
        match self.phase {
            BookPhase::AwaitingSnapshot => {
                if self.buffer.len() >= MAX_BUFFERED_EVENTS {
                    let _ = self.buffer.pop_front();
                }
                self.buffer.push_back(change);
                proof {
                    assert(self@.buffer =~= buffered(old(self)@.buffer, change@));
                }
                Ok(ApplyOutcome::Buffered)
            },
            BookPhase::AwaitingFirstEvent { last_update_id } => {
                if change.last < last_update_id {
                    return Ok(ApplyOutcome::Discarded);
                }
                if change.first > last_update_id {
                    return Err(
                        ApplyError::SnapshotTooOld {
                            last_update_id,
                            first_update_id: change.first,
                        },
                    );
                }
                self.apply_levels(&change);
                Ok(ApplyOutcome::Applied)
            },
            BookPhase::Streaming { last_update_id } => {
                if change.last <= last_update_id {
                    return Ok(ApplyOutcome::Discarded);
                }
                if let Some(prev) = change.prev {
                    if prev != last_update_id {
                        return Err(
                            ApplyError::SequenceGap { expected: last_update_id, got: prev },
                        );
                    }
                }
                self.apply_levels(&change);
                Ok(ApplyOutcome::Applied)
            },
        }
    }

    /// Takes in a change.
    pub fn apply_event(&mut self, event: &DepthEvent) -> (r: Result<ApplyOutcome, ApplyError>)
        requires
            old(self).wf(),
        ensures
            final(self).wf(),
            final(self).symbol_of() == old(self).symbol_of(),
            final(self).max() == old(self).max(),
            (final(self)@, r) == step(old(self)@, change_of(*event), old(self).max()),
    {
        let change = Kept {
            first: event.first_update_id,
            last: event.final_update_id,
            prev: event.prev_final_update_id,
            time_ms: event.event_time_ms,
            bids: parts_of(&event.bids),
            asks: parts_of(&event.asks),
        };
        self.apply(change)
    }

    fn apply_levels(&mut self, change: &Kept)
        requires
            old(self).wf(),
        ensures
            final(self).wf(),
            final(self).symbol_of() == old(self).symbol_of(),
            final(self).max() == old(self).max(),
            final(self)@ == applied(old(self)@, change@, old(self).max()),
    {
        self.bids.update(&change.bids);
        self.asks.update(&change.asks);
        self.bids.truncate(self.max_levels);
        self.asks.truncate(self.max_levels);
        if change.time_ms.is_some() {
            self.exchange_ts_ms = change.time_ms;
        }
        self.phase = BookPhase::Streaming { last_update_id: change.last };
        proof {
            assert(ladder::pairs(change.bids@) =~= change.bids@);
            assert(ladder::pairs(change.asks@) =~= change.asks@);
        }
    }

    /// The best `depth` levels of each side as an order book that was ready at `at`.
    pub fn order_book_at(&self, depth: usize, trace: MessageTrace, at: Instant) -> (r: OrderBook)
        requires
            self.wf(),
        ensures
            r.dex == Dex::Aster,
            r.symbol == self.symbol_of(),
            r.bids@ == ladder::first_of(self@.bids, depth as nat),
            r.asks@ == ladder::first_of(self@.asks, depth as nat),
            r.trace == (MessageTrace {
                exchange_ts_ms: self@.exchange_ts_ms,
                normalized_instant: Some(at),
                ..trace
            }),
            r.fault_but_crossing() is None,
    {
        let mut trace = trace;
        trace.set_exchange_ts_ms(self.exchange_ts_ms);
        trace.mark_normalized_at(at);
        OrderBook::new(Dex::Aster, self.symbol, self.bids.top(depth), self.asks.top(depth), trace)
    }

    /// The best `depth` levels of each side as an order book.
    pub fn to_order_book(&self, depth: usize, trace: MessageTrace, clock: &Clock) -> (r: OrderBook)
        requires
            self.wf(),
        ensures
            r.dex == Dex::Aster,
            r.symbol == self.symbol_of(),
            r.bids@ == ladder::first_of(self@.bids, depth as nat),
            r.asks@ == ladder::first_of(self@.asks, depth as nat),
            r.trace.normalized_instant is Some,
            r.trace == (MessageTrace {
                exchange_ts_ms: self@.exchange_ts_ms,
                normalized_instant: r.trace.normalized_instant,
                ..trace
            }),
            r.fault_but_crossing() is None,
    {
        self.order_book_at(depth, trace, clock.now())
    }
}

impl ApplyError {
    /// The error in words.
    pub fn message(&self) -> (r: String)
        ensures
            r@ == match *self {
                ApplyError::SnapshotTooOld { last_update_id, first_update_id } =>
                    "スナップショットが古い: lastUpdateId="@ + text::digits(last_update_id as nat)
                    + ", U="@ + text::digits(first_update_id as nat),
                ApplyError::SequenceGap { expected, got } => "シーケンス欠損: pu="@ + text::digits(
                    got as nat,
                ) + ", 期待値="@ + text::digits(expected as nat),
            },
    {
        match self {
            ApplyError::SnapshotTooOld { last_update_id, first_update_id } => {
                let mut out = "スナップショットが古い: lastUpdateId=".to_owned();
                out.append(text::number_text(*last_update_id).as_str());
                out.append(", U=");
                out.append(text::number_text(*first_update_id).as_str());
                out
            },
            ApplyError::SequenceGap { expected, got } => {
                let mut out = "シーケンス欠損: pu=".to_owned();
                out.append(text::number_text(*got).as_str());
                out.append(", 期待値=");
                out.append(text::number_text(*expected).as_str());
                out
            },
        }
    }
}

/// A change that cannot be applied leaves the book as it was.
pub proof fn law_refused_change_leaves_the_book(s: State, change: Change, max: nat)
    ensures
        step(s, change, max).1 is Err ==> step(s, change, max).0 == s,
{
}

/// A change that ends where the book already is, or before, is passed over: a repeated change does
/// no harm.
pub proof fn law_repeated_change_is_passed_over(s: State, change: Change, max: nat)
    requires
        step(s, change, max).1 == Ok::<ApplyOutcome, ApplyError>(ApplyOutcome::Applied),
    ensures
        step(step(s, change, max).0, change, max) == (
            step(s, change, max).0,
            Ok::<ApplyOutcome, ApplyError>(ApplyOutcome::Discarded),
        ),
{
}

/// The first change that is applied to a snapshot straddles its update id, and every later one that
/// names the change before it follows on it.
pub proof fn law_applied_changes_follow_on(s: State, change: Change, max: nat)
    requires
        step(s, change, max).1 == Ok::<ApplyOutcome, ApplyError>(ApplyOutcome::Applied),
    ensures
        s.phase matches BookPhase::AwaitingFirstEvent { last_update_id } ==> change.first
            <= last_update_id <= change.last,
        s.phase matches BookPhase::Streaming { last_update_id } ==> change.last > last_update_id
            && (change.prev is Some ==> change.prev == Some(last_update_id)),
{
}

/// Whether both sides of the book are in order.
pub open spec fn in_order(s: State) -> bool {
    &&& ladder::best_first(Side::Bid, s.bids) && book::all_positive(s.bids)
    &&& ladder::best_first(Side::Ask, s.asks) && book::all_positive(s.asks)
}

/// A snapshot gives at every price of either side what its last quote there offers, and its update
/// id is the one that changes must straddle.
pub proof fn law_snapshot_shows_its_quotes(snapshot: DepthSnapshot, max: nat)
    ensures
        ({
            let after = started(snapshot, max);
            &&& ladder::is_listing(Side::Bid, ladder::pairs(snapshot.bids@), after.bids, max)
            &&& ladder::is_listing(Side::Ask, ladder::pairs(snapshot.asks@), after.asks, max)
            &&& in_order(after)
            &&& after.phase == BookPhase::AwaitingFirstEvent {
                last_update_id: snapshot.last_update_id,
            }
            &&& after.exchange_ts_ms == snapshot.event_time_ms
        }),
{
    ladder::law_listing_takes_every_quote(Side::Bid, ladder::pairs(snapshot.bids@), max);
    ladder::law_listing_takes_every_quote(Side::Ask, ladder::pairs(snapshot.asks@), max);
}

/// A change that is applied gives every price that it names, on the side on which it names it, the
/// quantity that it names last, and leaves all others as they were; the book then stands at the
/// change's last update id. A change that is not applied leaves the book as it is.
pub proof fn law_change_settles_what_it_names(s: State, change: Change, max: nat)
    requires
        in_order(s),
    ensures
        ({
            let (after, outcome) = step(s, change, max);
            if outcome == Ok::<ApplyOutcome, ApplyError>(ApplyOutcome::Applied) {
                &&& ladder::is_update(Side::Bid, s.bids, change.bids, after.bids, max)
                &&& ladder::is_update(Side::Ask, s.asks, change.asks, after.asks, max)
                &&& in_order(after)
                &&& after.phase == BookPhase::Streaming { last_update_id: change.last }
                &&& change.time_ms is Some ==> after.exchange_ts_ms == change.time_ms
                &&& change.time_ms is None ==> after.exchange_ts_ms == s.exchange_ts_ms
                &&& after.buffer == s.buffer
            } else {
                &&& after.bids == s.bids && after.asks == s.asks
                &&& after.phase == s.phase
                &&& after.exchange_ts_ms == s.exchange_ts_ms
            }
        }),
{
    ladder::law_update_makes_every_change(Side::Bid, s.bids, change.bids, max);
    ladder::law_update_makes_every_change(Side::Ask, s.asks, change.asks, max);
}

/// What becomes of a change once there is a snapshot: one that straddles the snapshot's update id or
/// follows on the change before is applied, one that adds nothing is passed over, and any other one
/// shows that changes were lost.
pub proof fn law_fate_of_a_change(s: State, change: Change, max: nat)
    ensures
        s.phase matches BookPhase::AwaitingFirstEvent { last_update_id: id } ==> {
            let r = step(s, change, max).1;
            &&& r == Ok::<ApplyOutcome, ApplyError>(ApplyOutcome::Applied) <==> change.first <= id
                <= change.last
            &&& r == Ok::<ApplyOutcome, ApplyError>(ApplyOutcome::Discarded) <==> change.last < id
            &&& r is Err ==> r == Err::<ApplyOutcome, ApplyError>(
                ApplyError::SnapshotTooOld { last_update_id: id, first_update_id: change.first },
            )
        },
        s.phase matches BookPhase::Streaming { last_update_id: id } ==> {
            let r = step(s, change, max).1;
            &&& r == Ok::<ApplyOutcome, ApplyError>(ApplyOutcome::Applied) <==> change.last > id && (
            change.prev == Some(id) || change.prev is None)
            &&& r == Ok::<ApplyOutcome, ApplyError>(ApplyOutcome::Discarded) <==> change.last <= id
            &&& r is Err ==> (change.prev matches Some(got) && r == Err::<ApplyOutcome, ApplyError>(
                ApplyError::SequenceGap { expected: id, got },
            ))
        },
{
}

/// Until there is a snapshot every change is kept, the newest last; where more come than can be
/// kept, it is the oldest that go.
pub proof fn law_changes_are_kept_until_a_snapshot(s: State, change: Change, max: nat)
    requires
        s.phase == BookPhase::AwaitingSnapshot,
        s.buffer.len() <= MAX_BUFFERED_EVENTS,
    ensures
        ({
            let (after, outcome) = step(s, change, max);
            let n = after.buffer.len();
            &&& outcome == Ok::<ApplyOutcome, ApplyError>(ApplyOutcome::Buffered)
            &&& n <= MAX_BUFFERED_EVENTS
            &&& n == s.buffer.len() + 1 || s.buffer.len() == MAX_BUFFERED_EVENTS && n
                == MAX_BUFFERED_EVENTS
            &&& after.buffer[n - 1] == change
            &&& forall|i: int|
                1 <= i < n ==> #[trigger] after.buffer[n - 1 - i] == s.buffer[s.buffer.len() - i]
        }),
{
}

/// Changes that are replayed one by one give the same as all of them at once: where the first `n` go
/// through, the rest is replayed on what they led to.
pub proof fn law_replay_goes_on_where_it_was(s: State, changes: Seq<Change>, n: int, max: nat)
    requires
        0 <= n <= changes.len(),
        replayed(s, changes.take(n), max).1 is Ok,
    ensures
        replayed(s, changes, max) == replayed(
            replayed(s, changes.take(n), max).0,
            changes.skip(n),
            max,
        ),
    decreases n,
{
    if n == 0 {
        assert(changes.skip(0) =~= changes);
    } else {
        assert(changes.take(n).drop_first() =~= changes.drop_first().take(n - 1));
        assert(changes.drop_first().skip(n - 1) =~= changes.skip(n));
        assert(changes.take(n)[0] == changes[0]);
        law_replay_goes_on_where_it_was(
            step(s, changes[0], max).0,
            changes.drop_first(),
            n - 1,
            max,
        );
    }
}

/// A single change is replayed as if it came in now.
pub proof fn law_replayed_change_is_a_step(s: State, change: Change, max: nat)
    ensures
        replayed(s, seq![change], max).0 == step(s, change, max).0,
        replayed(s, seq![change], max).1 is Ok <==> step(s, change, max).1 is Ok,
        replayed(s, seq![change], max).1 matches Err(e) ==> step(s, change, max).1 == Err::<
            ApplyOutcome,
            ApplyError,
        >(e),
{
    let one = seq![change];
    assert(one[0] == change);
    assert(one.drop_first().len() == 0);
    reveal_with_fuel(replayed, 2);
}

} // verus!
