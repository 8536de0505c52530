//! The book of one instrument, rebuilt from snapshots and changes.
//!
//! A change must build on the version that the message before it led to. The count called `offset`
//! is not looked at: it jumps when another server takes over.

use vstd::prelude::*;

use crate::book;
use crate::book::{Level, OrderBook, Side};
use crate::ladder;
use crate::ladder::Ladder;
use crate::lighter::message::OrderBookPayload;
use crate::symbol::{Dex, Symbol};
use crate::text;
use crate::time::{Clock, Instant};
use crate::trace::MessageTrace;

verus! {

/// Why a change could not be applied. The remedy is a new subscription.
#[derive(Clone, Copy, Debug, PartialEq, Eq, Structural)]
pub enum ApplyError {
    /// No snapshot has come in.
    NotInitialized,
    /// The change does not build on the version of the book.
    NonceGap { expected: u64, got: u64 },
}

/// The book and its version.
pub struct State {
    pub bids: Seq<Level>,
    pub asks: Seq<Level>,
    pub last_nonce: Option<u64>,
    pub initialized: bool,
    pub exchange_ts_ms: Option<u64>,
}

/// The state before anything has come in.
pub open spec fn initial() -> State {
    State {
        bids: Seq::empty(),
        asks: Seq::empty(),
        last_nonce: None,
        initialized: false,
        exchange_ts_ms: None,
    }
}

/// The state that the snapshot `payload` gives, `max` levels kept on each side.
pub open spec fn replaced(
    payload: OrderBookPayload,
    nonce: Option<u64>,
    exchange_ts_ms: Option<u64>,
    max: nat,
) -> State {
    State {
        bids: ladder::first_of(ladder::listed(Side::Bid, ladder::pairs(payload.bids@)), max),
        asks: ladder::first_of(ladder::listed(Side::Ask, ladder::pairs(payload.asks@)), max),
        last_nonce: nonce,
        initialized: true,
        exchange_ts_ms,
    }
}

/// The state with the change `payload` made, `max` levels kept on each side.
pub open spec fn changed(
    s: State,
    payload: OrderBookPayload,
    nonce: Option<u64>,
    exchange_ts_ms: Option<u64>,
    max: nat,
) -> State {
    State {
        bids: ladder::first_of(
            ladder::updated(Side::Bid, s.bids, ladder::pairs(payload.bids@)),
            max,
        ),
        asks: ladder::first_of(
            ladder::updated(Side::Ask, s.asks, ladder::pairs(payload.asks@)),
            max,
        ),
        last_nonce: if nonce is Some { nonce } else { s.last_nonce },
        initialized: true,
        exchange_ts_ms: if exchange_ts_ms is Some { exchange_ts_ms } else { s.exchange_ts_ms },
    }
}

/// Why a change that builds on `begin_nonce` cannot be applied. Versions are compared only where
/// both are there.
pub open spec fn refusal(s: State, begin_nonce: Option<u64>) -> Option<ApplyError> {
    if !s.initialized {
        Some(ApplyError::NotInitialized)
    } else {
        match (s.last_nonce, begin_nonce) {
            (Some(expected), Some(got)) => if expected != got {
                Some(ApplyError::NonceGap { expected, got })
            } else {
                None
            },
            _ => None,
        }
    }
}

/// The book of one instrument.
pub struct LighterBookBuilder {
    symbol: Symbol,
    market_index: u32,
    bids: Ladder,
    asks: Ladder,
    last_nonce: Option<u64>,
    initialized: bool,
    max_levels: usize,
    exchange_ts_ms: Option<u64>,
}

impl View for LighterBookBuilder {
    type V = State;

    closed spec fn view(&self) -> State {
        State {
            bids: self.bids@,
            asks: self.asks@,
            last_nonce: self.last_nonce,
            initialized: self.initialized,
            exchange_ts_ms: self.exchange_ts_ms,
        }
    }
}

impl LighterBookBuilder {
    /// The instrument.
    pub closed spec fn symbol_of(self) -> Symbol {
        self.symbol
    }

    /// The index of the market.
    pub closed spec fn index(self) -> u32 {
        self.market_index
    }

    /// How many levels are kept on each side.
    pub closed spec fn max(self) -> nat {
        self.max_levels as nat
    }

    /// Whether both sides are in order and none has more levels than are kept.
    pub closed spec fn wf(self) -> bool {
        &&& self.bids.wf() && self.bids.side_of() == Side::Bid
        &&& self.asks.wf() && self.asks.side_of() == Side::Ask
        &&& self.max_levels >= 1
        &&& self.bids@.len() <= self.max_levels
        &&& self.asks@.len() <= self.max_levels
    }

    /// Whatever comes in, the best level stands first on each side, no quantity is zero or less, and no
    /// more levels are kept than were asked for: the book does not grow with time.
    pub proof fn law_book_is_in_order_and_bounded(self)
        requires
            self.wf(),
        ensures
            ladder::best_first(Side::Bid, self@.bids),
            ladder::best_first(Side::Ask, self@.asks),
            book::all_positive(self@.bids),
            book::all_positive(self@.asks),
            self@.bids.len() <= self.max(),
            self@.asks.len() <= self.max(),
    {
    }

    /// An empty book that keeps `max_levels` levels on each side, one at least.
    pub fn new(symbol: Symbol, market_index: u32, max_levels: usize) -> (r: LighterBookBuilder)
        ensures
            r.wf(),
            r.symbol_of() == symbol,
            r.index() == market_index,
            r.max() == if max_levels == 0 { 1 } else { max_levels as nat },
            r@ == initial(),
    {
        LighterBookBuilder {
            symbol,
            market_index,
            bids: Ladder::new(Side::Bid),
            asks: Ladder::new(Side::Ask),
            last_nonce: None,
            initialized: false,
            max_levels: if max_levels == 0 { 1 } else { max_levels },
            exchange_ts_ms: None,
        }
    }

    /// The instrument.
    pub fn symbol(&self) -> (r: Symbol)
        ensures
            r == self.symbol_of(),
    {
        self.symbol
    }

    /// The index of the market.
    pub fn market_index(&self) -> (r: u32)
        ensures
            r == self.index(),
    {
        self.market_index
    }

    /// Whether a snapshot has come in.
    pub fn is_initialized(&self) -> (r: bool)
        ensures
            r == self@.initialized,
    {
        self.initialized
    }

    /// The version of the book.
    pub fn last_nonce(&self) -> (r: Option<u64>)
        ensures
            r == self@.last_nonce,
    {
        self.last_nonce
    }

    /// Drops the book.
    pub fn reset(&mut self)
        requires
            old(self).wf(),
        ensures
            final(self).wf(),
            final(self).symbol_of() == old(self).symbol_of(),
            final(self).index() == old(self).index(),
            final(self).max() == old(self).max(),
            final(self)@ == initial(),
    {
        self.bids.clear();
        self.asks.clear();
        self.last_nonce = None;
        self.initialized = false;
        self.exchange_ts_ms = None;
    }

    /// Puts a snapshot in place of the book. Nothing of the book before is left.
    pub fn apply_snapshot(
        &mut self,
        payload: &OrderBookPayload,
        nonce: Option<u64>,
        exchange_ts_ms: Option<u64>,
    )
        requires
            old(self).wf(),
        ensures
            final(self).wf(),
            final(self).symbol_of() == old(self).symbol_of(),
            final(self).index() == old(self).index(),
            final(self).max() == old(self).max(),
            final(self)@ == replaced(*payload, nonce, exchange_ts_ms, old(self).max()),
    {
        self.bids.replace(&payload.bids);
        self.asks.replace(&payload.asks);
        self.last_nonce = nonce;
        self.initialized = true;
        self.exchange_ts_ms = exchange_ts_ms;
        self.bids.truncate(self.max_levels);
        self.asks.truncate(self.max_levels);
    }

    /// Makes a change to the book.
    pub fn apply_update(
        &mut self,
        payload: &OrderBookPayload,
        begin_nonce: Option<u64>,
        nonce: Option<u64>,
        exchange_ts_ms: Option<u64>,
    ) -> (r: Result<(), ApplyError>)
        requires
            old(self).wf(),
        ensures
            final(self).wf(),
            final(self).symbol_of() == old(self).symbol_of(),
            final(self).index() == old(self).index(),
            final(self).max() == old(self).max(),
            r == match refusal(old(self)@, begin_nonce) {
                Some(e) => Err(e),
                None => Ok(()),
            },
            final(self)@ == if r is Ok {
                changed(old(self)@, *payload, nonce, exchange_ts_ms, old(self).max())
            } else {
                old(self)@
            },
    {
        if !self.initialized {
            return Err(ApplyError::NotInitialized);
        }
        match (self.last_nonce, begin_nonce) {
            (Some(expected), Some(got)) => {
                if expected != got {
                    return Err(ApplyError::NonceGap { expected, got });
                }
            },
            _ => {},
        }
        self.bids.update(&payload.bids);
        self.asks.update(&payload.asks);
        if nonce.is_some() {
            self.last_nonce = nonce;
        }
        if exchange_ts_ms.is_some() {
            self.exchange_ts_ms = exchange_ts_ms;
        }
        self.bids.truncate(self.max_levels);
        self.asks.truncate(self.max_levels);
        Ok(())
    }

    /// The best `depth` levels of each side as an order book that was ready at `at`.
    pub fn order_book_at(&self, depth: usize, trace: MessageTrace, at: Instant) -> (r: OrderBook)
        requires
            self.wf(),
        ensures
            r.dex == Dex::Lighter,
            r.symbol == self.symbol_of(),
            r.bids@ == ladder::first_of(self@.bids, depth as nat),
            r.asks@ == ladder::first_of(self@.asks, depth as nat),
            r.trace == (MessageTrace {
                exchange_ts_ms: self@.exchange_ts_ms,
                normalized_instant: Some(at),
                ..trace
            }),
            r.fault_but_crossing() is None,
    {
        let mut trace = trace;
        trace.set_exchange_ts_ms(self.exchange_ts_ms);
        trace.mark_normalized_at(at);
        OrderBook::new(Dex::Lighter, self.symbol, self.bids.top(depth), self.asks.top(depth), trace)
    }

    /// The best `depth` levels of each side as an order book.
    pub fn to_order_book(&self, depth: usize, trace: MessageTrace, clock: &Clock) -> (r: OrderBook)
        requires
            self.wf(),
        ensures
            r.dex == Dex::Lighter,
            r.symbol == self.symbol_of(),
            r.bids@ == ladder::first_of(self@.bids, depth as nat),
            r.asks@ == ladder::first_of(self@.asks, depth as nat),
            r.trace.normalized_instant is Some,
            r.trace == (MessageTrace {
                exchange_ts_ms: self@.exchange_ts_ms,
                normalized_instant: r.trace.normalized_instant,
                ..trace
            }),
            r.fault_but_crossing() is None,
    {
        self.order_book_at(depth, trace, clock.now())
    }
}

impl ApplyError {
    /// The error in words.
    pub fn message(&self) -> (r: String)
        ensures
            r@ == match *self {
                ApplyError::NotInitialized => "スナップショット未受信のまま差分が届いた"@,
                ApplyError::NonceGap { expected, got } => "nonce 欠損: begin_nonce="@ + text::digits(
                    got as nat,
                ) + ", 期待値="@ + text::digits(expected as nat),
            },
    {
        match self {
            ApplyError::NotInitialized => "スナップショット未受信のまま差分が届いた".to_owned(),
            ApplyError::NonceGap { expected, got } => {
                let mut out = "nonce 欠損: begin_nonce=".to_owned();
                out.append(text::number_text(*got).as_str());
                out.append(", 期待値=");
                out.append(text::number_text(*expected).as_str());
                out
            },
        }
    }
}

/// A change right after a snapshot is accepted where it builds on the snapshot's version, or where
/// one of the two has none.
pub proof fn law_change_after_snapshot_follows_on(
    payload: OrderBookPayload,
    nonce: Option<u64>,
    exchange_ts_ms: Option<u64>,
    begin_nonce: Option<u64>,
    max: nat,
)
    ensures
        refusal(replaced(payload, nonce, exchange_ts_ms, max), begin_nonce) is None <==> (nonce
            is None || begin_nonce is None || nonce == begin_nonce),
{
}

/// The count `offset` makes no difference, neither to a snapshot nor to a change.
pub proof fn law_offset_does_not_matter(
    s: State,
    a: OrderBookPayload,
    b: OrderBookPayload,
    nonce: Option<u64>,
    exchange_ts_ms: Option<u64>,
    max: nat,
)
    requires
        a.bids@ == b.bids@,
        a.asks@ == b.asks@,
    ensures
        replaced(a, nonce, exchange_ts_ms, max) == replaced(b, nonce, exchange_ts_ms, max),
        changed(s, a, nonce, exchange_ts_ms, max) == changed(s, b, nonce, exchange_ts_ms, max),
{
}

/// A snapshot gives at every price of either side what its last quote there offers, and takes over
/// its version and its time.
pub proof fn law_snapshot_shows_its_quotes(
    payload: OrderBookPayload,
    nonce: Option<u64>,
    exchange_ts_ms: Option<u64>,
    max: nat,
)
    ensures
        ({
            let after = replaced(payload, nonce, exchange_ts_ms, max);
            &&& ladder::is_listing(Side::Bid, ladder::pairs(payload.bids@), after.bids, max)
            &&& ladder::is_listing(Side::Ask, ladder::pairs(payload.asks@), after.asks, max)
            &&& after.initialized
            &&& after.last_nonce == nonce
            &&& after.exchange_ts_ms == exchange_ts_ms
        }),
{
    ladder::law_listing_takes_every_quote(Side::Bid, ladder::pairs(payload.bids@), max);
    ladder::law_listing_takes_every_quote(Side::Ask, ladder::pairs(payload.asks@), max);
}

/// A change gives every price that it names, on the side on which it names it, the quantity that it
/// names last, and leaves all others as they were.
pub proof fn law_change_settles_what_it_names(
    s: State,
    payload: OrderBookPayload,
    nonce: Option<u64>,
    exchange_ts_ms: Option<u64>,
    max: nat,
)
    requires
        ladder::best_first(Side::Bid, s.bids) && book::all_positive(s.bids),
        ladder::best_first(Side::Ask, s.asks) && book::all_positive(s.asks),
    ensures
        ({
            let after = changed(s, payload, nonce, exchange_ts_ms, max);
            &&& ladder::is_update(Side::Bid, s.bids, ladder::pairs(payload.bids@), after.bids, max)
            &&& ladder::is_update(Side::Ask, s.asks, ladder::pairs(payload.asks@), after.asks, max)
            &&& after.initialized
            &&& after.last_nonce == nonce || (nonce is None && after.last_nonce == s.last_nonce)
            &&& after.exchange_ts_ms == exchange_ts_ms || (exchange_ts_ms is None
                && after.exchange_ts_ms == s.exchange_ts_ms)
        }),
{
    ladder::law_update_makes_every_change(Side::Bid, s.bids, ladder::pairs(payload.bids@), max);
    ladder::law_update_makes_every_change(Side::Ask, s.asks, ladder::pairs(payload.asks@), max);
}

/// After a change with a version, the next one is accepted exactly where it builds on that version;
/// else both versions are reported.
pub proof fn law_next_change_builds_on_this_one(
    s: State,
    payload: OrderBookPayload,
    nonce: u64,
    exchange_ts_ms: Option<u64>,
    max: nat,
    begin_nonce: u64,
)
    ensures
        refusal(changed(s, payload, Some(nonce), exchange_ts_ms, max), Some(begin_nonce))
            == if begin_nonce == nonce {
            None
        } else {
            Some(ApplyError::NonceGap { expected: nonce, got: begin_nonce })
        },
{
}

/// Before a snapshot no change is accepted.
pub proof fn law_changes_wait_for_a_snapshot(begin_nonce: Option<u64>)
    ensures
        refusal(initial(), begin_nonce) == Some(ApplyError::NotInitialized),
{
}

} // verus!
