//! The book of one instrument, rebuilt from snapshots and changes.
//!
//! A size of zero drops the level: were it kept, the level would stay in the book for ever.
//! `message_id` must go up by one from message to message. It counts all messages of the
//! connection, so this holds only where nothing but one book is subscribed to on it.

use vstd::prelude::*;

use crate::book;
use crate::book::{Level, OrderBook, Side};
use crate::dydx::message::OrderBookContents;
use crate::ladder;
use crate::ladder::Ladder;
use crate::symbol::{Dex, Symbol};
use crate::text;
use crate::time::{Clock, Instant};
use crate::trace::MessageTrace;

verus! {

/// Why a change could not be applied. The remedy is a new subscription.
#[derive(Clone, Copy, Debug, PartialEq, Eq, Structural)]
pub enum ApplyError {
    /// No snapshot has come in.
    NotInitialized,
    /// A message was lost.
    MessageIdGap { expected: u64, got: u64 },
}

/// The book and the place of the last message.
pub struct State {
    pub bids: Seq<Level>,
    pub asks: Seq<Level>,
    pub last_message_id: Option<u64>,
    pub initialized: bool,
}

/// The state before anything has come in.
pub open spec fn initial() -> State {
    State {
        bids: Seq::empty(),
        asks: Seq::empty(),
        last_message_id: None,
        initialized: false,
    }
}

/// The state that the snapshot `contents` gives, `max` levels kept on each side.
pub open spec fn replaced(contents: OrderBookContents, message_id: Option<u64>, max: nat) -> State {
    State {
        bids: ladder::first_of(ladder::listed(Side::Bid, ladder::pairs(contents.bids@)), max),
        asks: ladder::first_of(ladder::listed(Side::Ask, ladder::pairs(contents.asks@)), max),
        last_message_id: message_id,
        initialized: true,
    }
}

/// The state with the change `contents` made, `max` levels kept on each side.
pub open spec fn changed(
    s: State,
    contents: OrderBookContents,
    message_id: Option<u64>,
    max: nat,
) -> State {
    State {
        bids: ladder::first_of(
            ladder::updated(Side::Bid, s.bids, ladder::pairs(contents.bids@)),
            max,
        ),
        asks: ladder::first_of(
            ladder::updated(Side::Ask, s.asks, ladder::pairs(contents.asks@)),
            max,
        ),
        last_message_id: if message_id is Some { message_id } else { s.last_message_id },
        initialized: true,
    }
}

/// Why a change at `message_id` cannot be applied. Places are compared only where both are there.
pub open spec fn refusal(s: State, message_id: Option<u64>) -> Option<ApplyError> {
    if !s.initialized {
        Some(ApplyError::NotInitialized)
    } else {
        match (s.last_message_id, message_id) {
            (Some(last), Some(got)) => if got != last.wrapping_add(1) {
                Some(ApplyError::MessageIdGap { expected: last.wrapping_add(1), got })
            } else {
                None
            },
            _ => None,
        }
    }
}

/// The book of one instrument.
pub struct DydxBookBuilder {
    symbol: Symbol,
    bids: Ladder,
    asks: Ladder,
    last_message_id: Option<u64>,
    initialized: bool,
    max_levels: usize,
}

impl View for DydxBookBuilder {
    type V = State;

    closed spec fn view(&self) -> State {
        State {
            bids: self.bids@,
            asks: self.asks@,
            last_message_id: self.last_message_id,
            initialized: self.initialized,
        }
    }
}

impl DydxBookBuilder {
    /// The instrument.
    pub closed spec fn symbol_of(self) -> Symbol {
        self.symbol
    }

    /// How many levels are kept on each side.
    pub closed spec fn max(self) -> nat {
        self.max_levels as nat
    }

    /// Whether both sides are in order and none has more levels than are kept.
    pub closed spec fn wf(self) -> bool {
        &&& self.bids.wf() && self.bids.side_of() == Side::Bid
        &&& self.asks.wf() && self.asks.side_of() == Side::Ask
        &&& self.max_levels >= 1
        &&& self.bids@.len() <= self.max_levels
        &&& self.asks@.len() <= self.max_levels
    }

    /// Whatever comes in, the best level stands first on each side, no quantity is zero or less, and no
    /// more levels are kept than were asked for: the book does not grow with time.
    pub proof fn law_book_is_in_order_and_bounded(self)
        requires
            self.wf(),
        ensures
            ladder::best_first(Side::Bid, self@.bids),
            ladder::best_first(Side::Ask, self@.asks),
            book::all_positive(self@.bids),
            book::all_positive(self@.asks),
            self@.bids.len() <= self.max(),
            self@.asks.len() <= self.max(),
    {
    }

    /// An empty book that keeps `max_levels` levels on each side, one at least.
    pub fn new(symbol: Symbol, max_levels: usize) -> (r: DydxBookBuilder)
        ensures
            r.wf(),
            r.symbol_of() == symbol,
            r.max() == if max_levels == 0 { 1 } else { max_levels as nat },
            r@ == initial(),
    {
        DydxBookBuilder {
            symbol,
            bids: Ladder::new(Side::Bid),
            asks: Ladder::new(Side::Ask),
            last_message_id: None,
            initialized: false,
            max_levels: if max_levels == 0 { 1 } else { max_levels },
        }
    }

    /// The instrument.
    pub fn symbol(&self) -> (r: Symbol)
        ensures
            r == self.symbol_of(),
    {
        self.symbol
    }

    /// Whether a snapshot has come in.
    pub fn is_initialized(&self) -> (r: bool)
        ensures
            r == self@.initialized,
    {
        self.initialized
    }

    /// The place of the last message.
    pub fn last_message_id(&self) -> (r: Option<u64>)
        ensures
            r == self@.last_message_id,
    {
        self.last_message_id
    }

    /// Drops the book.
    pub fn reset(&mut self)
        requires
            old(self).wf(),
        ensures
            final(self).wf(),
            final(self).symbol_of() == old(self).symbol_of(),
            final(self).max() == old(self).max(),
            final(self)@ == initial(),
    {
        self.bids.clear();
        self.asks.clear();
        self.last_message_id = None;
        self.initialized = false;
    }

    /// Puts a snapshot in place of the book. Nothing of the book before is left.
    pub fn apply_snapshot(&mut self, contents: &OrderBookContents, message_id: Option<u64>)
        requires
            old(self).wf(),
        ensures
            final(self).wf(),
            final(self).symbol_of() == old(self).symbol_of(),
            final(self).max() == old(self).max(),
            final(self)@ == replaced(*contents, message_id, old(self).max()),
    {
        self.bids.replace(&contents.bids);
        self.asks.replace(&contents.asks);
        self.last_message_id = message_id;
        self.initialized = true;
        self.bids.truncate(self.max_levels);
        self.asks.truncate(self.max_levels);
    }

    /// Makes a change to the book.
    pub fn apply_update(&mut self, contents: &OrderBookContents, message_id: Option<u64>) -> (r:
        Result<(), ApplyError>)
        requires
            old(self).wf(),
        ensures
            final(self).wf(),
            final(self).symbol_of() == old(self).symbol_of(),
            final(self).max() == old(self).max(),
            r == match refusal(old(self)@, message_id) {
                Some(e) => Err(e),
                None => Ok(()),
            },
            final(self)@ == if r is Ok {
                changed(old(self)@, *contents, message_id, old(self).max())
            } else {
                old(self)@
            },
    {
        if !self.initialized {
            return Err(ApplyError::NotInitialized);
        }
        match (self.last_message_id, message_id) {
            (Some(last), Some(got)) => {
                let expected: u64 = last.wrapping_add(1);
                if got != expected {
                    return Err(ApplyError::MessageIdGap { expected, got });
                }
            },
            _ => {},
        }
        self.bids.update(&contents.bids);
        self.asks.update(&contents.asks);
        if message_id.is_some() {
            self.last_message_id = message_id;
        }
        self.bids.truncate(self.max_levels);
        self.asks.truncate(self.max_levels);
        Ok(())
    }

    /// The best `depth` levels of each side as an order book that was ready at `at`. The venue puts
    /// no time of its own into its books.
    pub fn order_book_at(&self, depth: usize, trace: MessageTrace, at: Instant) -> (r: OrderBook)
        requires
            self.wf(),
        ensures
            r.dex == Dex::Dydx,
            r.symbol == self.symbol_of(),
            r.bids@ == ladder::first_of(self@.bids, depth as nat),
            r.asks@ == ladder::first_of(self@.asks, depth as nat),
            r.trace == (MessageTrace { normalized_instant: Some(at), ..trace }),
            r.fault_but_crossing() is None,
    {
        let mut trace = trace;
        trace.mark_normalized_at(at);
        OrderBook::new(Dex::Dydx, self.symbol, self.bids.top(depth), self.asks.top(depth), trace)
    }

    /// The best `depth` levels of each side as an order book.
    pub fn to_order_book(&self, depth: usize, trace: MessageTrace, clock: &Clock) -> (r: OrderBook)
        requires
            self.wf(),
        ensures
            r.dex == Dex::Dydx,
            r.symbol == self.symbol_of(),
            r.bids@ == ladder::first_of(self@.bids, depth as nat),
            r.asks@ == ladder::first_of(self@.asks, depth as nat),
            r.trace.normalized_instant is Some,
            r.trace == (MessageTrace {
                normalized_instant: r.trace.normalized_instant,
                ..trace
            }),
            r.fault_but_crossing() is None,
    {
        self.order_book_at(depth, trace, clock.now())
    }
}

impl ApplyError {
    /// The error in words.
    pub fn message(&self) -> (r: String)
        ensures
            r@ == match *self {
                ApplyError::NotInitialized => "スナップショット未受信のまま差分が届いた"@,
                ApplyError::MessageIdGap { expected, got } => "message_id 欠損: got="@ + text::digits(
                    got as nat,
                ) + ", 期待値="@ + text::digits(expected as nat),
            },
    {
        match self {
            ApplyError::NotInitialized => "スナップショット未受信のまま差分が届いた".to_owned(),
            ApplyError::MessageIdGap { expected, got } => {
                let mut out = "message_id 欠損: got=".to_owned();
                out.append(text::number_text(*got).as_str());
                out.append(", 期待値=");
                out.append(text::number_text(*expected).as_str());
                out
            },
        }
    }
}

/// A change right after a snapshot is accepted where it is the next message, or where one of the
/// two has no place.
pub proof fn law_change_after_snapshot_follows_on(
    contents: OrderBookContents,
    message_id: Option<u64>,
    next_id: Option<u64>,
    max: nat,
)
    ensures
        refusal(replaced(contents, message_id, max), next_id) is None <==> match (
            message_id,
            next_id,
        ) {
            (Some(last), Some(next)) => next == last.wrapping_add(1),
            _ => true,
        },
{
}

/// A snapshot gives at every price of either side what its last quote there offers, and takes over
/// its place.
pub proof fn law_snapshot_shows_its_quotes(
    contents: OrderBookContents,
    message_id: Option<u64>,
    max: nat,
)
    ensures
        ({
            let after = replaced(contents, message_id, max);
            &&& ladder::is_listing(Side::Bid, ladder::pairs(contents.bids@), after.bids, max)
            &&& ladder::is_listing(Side::Ask, ladder::pairs(contents.asks@), after.asks, max)
            &&& after.initialized
            &&& after.last_message_id == message_id
        }),
{
    ladder::law_listing_takes_every_quote(Side::Bid, ladder::pairs(contents.bids@), max);
    ladder::law_listing_takes_every_quote(Side::Ask, ladder::pairs(contents.asks@), max);
}

/// A change gives every price that it names, on the side on which it names it, the quantity that it
/// names last, and leaves all others as they were. A size of zero leaves no level.
pub proof fn law_change_settles_what_it_names(
    s: State,
    contents: OrderBookContents,
    message_id: Option<u64>,
    max: nat,
)
    requires
        ladder::best_first(Side::Bid, s.bids) && book::all_positive(s.bids),
        ladder::best_first(Side::Ask, s.asks) && book::all_positive(s.asks),
    ensures
        ({
            let after = changed(s, contents, message_id, max);
            &&& ladder::is_update(Side::Bid, s.bids, ladder::pairs(contents.bids@), after.bids, max)
            &&& ladder::is_update(Side::Ask, s.asks, ladder::pairs(contents.asks@), after.asks, max)
            &&& after.initialized
            &&& after.last_message_id == message_id || (message_id is None
                && after.last_message_id == s.last_message_id)
        }),
{
    ladder::law_update_makes_every_change(Side::Bid, s.bids, ladder::pairs(contents.bids@), max);
    ladder::law_update_makes_every_change(Side::Ask, s.asks, ladder::pairs(contents.asks@), max);
}

/// After a change with a place, the next one is accepted exactly where its place is the next one;
/// else the place that was due and the one that came are reported.
pub proof fn law_places_go_up_by_one(
    s: State,
    contents: OrderBookContents,
    message_id: u64,
    max: nat,
    next_id: u64,
)
    requires
        message_id < u64::MAX,
    ensures
        refusal(changed(s, contents, Some(message_id), max), Some(next_id)) == if next_id
            == message_id + 1 {
            None
        } else {
            Some(ApplyError::MessageIdGap { expected: (message_id + 1) as u64, got: next_id })
        },
{
}

/// Before a snapshot no change is accepted.
pub proof fn law_changes_wait_for_a_snapshot(message_id: Option<u64>)
    ensures
        refusal(initial(), message_id) == Some(ApplyError::NotInitialized),
{
}

} // verus!
