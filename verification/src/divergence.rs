//! The price difference between two venues.

use vstd::prelude::*;

use crate::book;
use crate::book::{OrderBook, Side};
use crate::decimal;
use crate::decimal::{Decimal, Overflow};
use crate::liquidity;
use crate::num;
use crate::num::{Price, Quantity};
use crate::symbol::{Dex, Symbol};
use crate::time;
use crate::time::{Clock, Instant};
use crate::trace::MessageTrace;

verus! {

/// How many basis points from the best price the depth of a book is measured to.
pub const DEPTH_SLIPPAGE_BPS: u32 = 10;

/// On which of the two venues is sold, and on which bought.
#[derive(Clone, Copy, Debug, PartialEq, Eq, Structural)]
pub enum ExecutableDirection {
    /// Sell to the bids of A, buy from the asks of B: A is the dearer.
    SellABuyB,
    /// Sell to the bids of B, buy from the asks of A: B is the dearer.
    SellBBuyA,
}

impl ExecutableDirection {
    /// The direction's name.
    pub open spec fn name(self) -> Seq<char> {
        match self {
            ExecutableDirection::SellABuyB => "sell_a_buy_b"@,
            ExecutableDirection::SellBBuyA => "sell_b_buy_a"@,
        }
    }

    /// The direction's name.
    pub fn as_str(&self) -> (r: &'static str)
        ensures
            r@ == self.name(),
    {
        match self {
            ExecutableDirection::SellABuyB => "sell_a_buy_b",
            ExecutableDirection::SellBBuyA => "sell_b_buy_a",
        }
    }
}

/// The price difference between two venues at one moment.
#[derive(Clone, Copy, Debug, PartialEq, Eq, Structural)]
pub struct DivergenceSnapshot {
    pub symbol: Symbol,
    pub dex_a: Dex,
    pub dex_b: Dex,
    pub mid_a: Price,
    pub mid_b: Price,
    pub best_bid_a: Price,
    pub best_ask_a: Price,
    pub best_bid_b: Price,
    pub best_ask_b: Price,
    /// The difference of the mid prices, in basis points. Above zero, A is the dearer.
    pub raw_spread_bps: Decimal,
    /// The difference of the best prices that can be traded at, in basis points: the better of the
    /// two directions.
    pub executable_spread_bps: Decimal,
    /// The direction of `executable_spread_bps`.
    pub executable_direction: ExecutableDirection,
    /// The difference of the average prices of an order of the configured size, in the same
    /// direction; nothing where a book is too thin.
    pub vwap_spread_bps: Option<Decimal>,
    /// The size of that order.
    pub vwap_size: Option<Quantity>,
    /// What can be had within [`DEPTH_SLIPPAGE_BPS`] of the best price, on the thinner side.
    pub depth_a_bps10: Quantity,
    pub depth_b_bps10: Quantity,
    /// Whether the books were crossed. A difference that a crossed book shows cannot be traded on.
    pub book_crossed_a: bool,
    pub book_crossed_b: bool,
    /// When the book of A came in, less when that of B did, in milliseconds. Where this is large, one
    /// book is old and the difference may be none.
    pub staleness_delta_ms: i64,
    pub computed_at_wall_ms: u64,
    /// The venue whose book had changed.
    pub trigger_dex: Dex,
    pub trace_a: MessageTrace,
    pub trace_b: MessageTrace,
}

/// What two books say of each other, whatever the size of an order.
#[derive(Clone, Copy, Debug, PartialEq, Eq, Structural)]
pub struct Spreads {
    pub mid_a: Price,
    pub mid_b: Price,
    /// The point halfway between the mid prices, of which differences are measured.
    pub reference: Decimal,
    pub raw_bps: Decimal,
    pub sell_a_buy_b_bps: Decimal,
    pub sell_b_buy_a_bps: Decimal,
    pub depth_a: Quantity,
    pub depth_b: Quantity,
}

impl Spreads {
    /// The better direction.
    pub open spec fn direction(self) -> ExecutableDirection {
        if self.sell_a_buy_b_bps.units() >= self.sell_b_buy_a_bps.units() {
            ExecutableDirection::SellABuyB
        } else {
            ExecutableDirection::SellBBuyA
        }
    }

    /// The difference in the better direction.
    pub open spec fn executable_bps(self) -> Decimal {
        match self.direction() {
            ExecutableDirection::SellABuyB => self.sell_a_buy_b_bps,
            ExecutableDirection::SellBBuyA => self.sell_b_buy_a_bps,
        }
    }

    /// The same with A and B changed over.
    pub open spec fn mirrored(self) -> Spreads {
        Spreads {
            mid_a: self.mid_b,
            mid_b: self.mid_a,
            reference: self.reference,
            raw_bps: self.raw_bps.negated(),
            sell_a_buy_b_bps: self.sell_b_buy_a_bps,
            sell_b_buy_a_bps: self.sell_a_buy_b_bps,
            depth_a: self.depth_b,
            depth_b: self.depth_a,
        }
    }
}

/// What can be had of `book` within [`DEPTH_SLIPPAGE_BPS`], on the side where it is less.
pub open spec fn thinner_depth(book: OrderBook) -> Result<Quantity, Overflow> {
    match (
        book::depth_within(book.bids@, Side::Bid, DEPTH_SLIPPAGE_BPS),
        book::depth_within(book.asks@, Side::Ask, DEPTH_SLIPPAGE_BPS),
    ) {
        (Ok(bid), Ok(ask)) => Ok(
            if bid.0.units() <= ask.0.units() {
                bid
            } else {
                ask
            },
        ),
        _ => Err(Overflow),
    }
}

/// What `a` and `b` say of each other around `reference`.
pub open spec fn spreads_around(
    a: OrderBook,
    b: OrderBook,
    mid_a: Price,
    mid_b: Price,
    reference: Decimal,
) -> Result<Spreads, Overflow> {
    match (
        num::difference_bps(mid_a.0, mid_b.0, reference),
        num::difference_bps(a.bids@[0].price.0, b.asks@[0].price.0, reference),
        num::difference_bps(b.bids@[0].price.0, a.asks@[0].price.0, reference),
        thinner_depth(a),
        thinner_depth(b),
    ) {
        (Ok(raw_bps), Ok(sell_a_buy_b_bps), Ok(sell_b_buy_a_bps), Ok(depth_a), Ok(depth_b)) => Ok(
            Spreads {
                mid_a,
                mid_b,
                reference,
                raw_bps,
                sell_a_buy_b_bps,
                sell_b_buy_a_bps,
                depth_a,
                depth_b,
            },
        ),
        _ => Err(Overflow),
    }
}

/// What `a` and `b` say of each other: nothing where they are of different instruments or of one
/// venue, where a book lacks a side, or where prices are not above zero.
pub open spec fn spreads_of(a: OrderBook, b: OrderBook) -> Result<Option<Spreads>, Overflow> {
    if a.symbol != b.symbol || a.dex == b.dex {
        Ok(None)
    } else {
        match (a.mid_outcome(), b.mid_outcome()) {
            (Ok(Some(mid_a)), Ok(Some(mid_b))) => match num::midpoint(mid_a.0, mid_b.0) {
                Ok(reference) => if reference.units() <= 0 {
                    Ok(None)
                } else {
                    match spreads_around(a, b, mid_a, mid_b, reference) {
                        Ok(spreads) => Ok(Some(spreads)),
                        Err(e) => Err(e),
                    }
                },
                Err(e) => Err(e),
            },
            (Ok(None), _) => Ok(None),
            (Ok(Some(_)), Ok(None)) => Ok(None),
            _ => Err(Overflow),
        }
    }
}

/// The size of an order worth `notional` around `reference`; nothing where there is no order.
pub open spec fn order_size(notional: Option<Decimal>, reference: Decimal) -> Result<
    Option<Quantity>,
    Overflow,
> {
    match notional {
        Some(n) => if n.units() > 0 {
            match decimal::quotient_of(n, reference) {
                Ok(size) => Ok(Some(Quantity(size))),
                Err(e) => Err(e),
            }
        } else {
            Ok(None)
        },
        None => Ok(None),
    }
}

/// The average price of selling `size` to the bids of `seller` less that of buying it from the asks
/// of `buyer`, in basis points; nothing where a book is too thin.
pub open spec fn vwap_difference(
    seller: OrderBook,
    buyer: OrderBook,
    size: Quantity,
    reference: Decimal,
) -> Result<Option<Decimal>, Overflow> {
    match book::vwap(seller.bids@, size.0) {
        Ok(Some(sold)) => match book::vwap(buyer.asks@, size.0) {
            Ok(Some(bought)) => match num::difference_bps(sold.0, bought.0, reference) {
                Ok(bps) => Ok(Some(bps)),
                Err(e) => Err(e),
            },
            Ok(None) => Ok(None),
            Err(e) => Err(e),
        },
        Ok(None) => Ok(None),
        Err(e) => Err(e),
    }
}

/// The difference of the average prices of an order of `size`, in the better direction.
pub open spec fn vwap_spread(
    a: OrderBook,
    b: OrderBook,
    spreads: Spreads,
    size: Option<Quantity>,
) -> Result<Option<Decimal>, Overflow> {
    match size {
        Some(size) => match spreads.direction() {
            ExecutableDirection::SellABuyB => vwap_difference(a, b, size, spreads.reference),
            ExecutableDirection::SellBBuyA => vwap_difference(b, a, size, spreads.reference),
        },
        None => Ok(None),
    }
}

/// The trace with `at` as the time of its evaluation where the book is the one that had changed. The
/// other book has waited, which says nothing of the pipeline.
pub open spec fn marked(book: OrderBook, trigger_dex: Dex, at: Instant) -> MessageTrace {
    if book.dex == trigger_dex {
        MessageTrace { evaluated_instant: Some(at), ..book.trace }
    } else {
        book.trace
    }
}

/// The snapshot that is made of all this.
pub open spec fn snapshot_of(
    a: OrderBook,
    b: OrderBook,
    trigger_dex: Dex,
    spreads: Spreads,
    vwap_size: Option<Quantity>,
    vwap_spread_bps: Option<Decimal>,
    at: Instant,
    wall_ms: u64,
) -> DivergenceSnapshot {
    DivergenceSnapshot {
        symbol: a.symbol,
        dex_a: a.dex,
        dex_b: b.dex,
        mid_a: spreads.mid_a,
        mid_b: spreads.mid_b,
        best_bid_a: a.bids@[0].price,
        best_ask_a: a.asks@[0].price,
        best_bid_b: b.bids@[0].price,
        best_ask_b: b.asks@[0].price,
        raw_spread_bps: spreads.raw_bps,
        executable_spread_bps: spreads.executable_bps(),
        executable_direction: spreads.direction(),
        vwap_spread_bps,
        vwap_size,
        depth_a_bps10: spreads.depth_a,
        depth_b_bps10: spreads.depth_b,
        book_crossed_a: a.crossed(),
        book_crossed_b: b.crossed(),
        staleness_delta_ms: (a.trace.received_wall_ms as i64).wrapping_sub(
            b.trace.received_wall_ms as i64,
        ),
        computed_at_wall_ms: wall_ms,
        trigger_dex,
        trace_a: marked(a, trigger_dex, at),
        trace_b: marked(b, trigger_dex, at),
    }
}

fn checked_thinner_depth(book: &OrderBook) -> (r: Result<Quantity, Overflow>)
    ensures
        r == thinner_depth(*book),
{
    let bid = book.checked_max_size_within_slippage(Side::Bid, DEPTH_SLIPPAGE_BPS)?;
    let ask = book.checked_max_size_within_slippage(Side::Ask, DEPTH_SLIPPAGE_BPS)?;
    if ask.0.is_less(bid.0) {
        Ok(ask)
    } else {
        Ok(bid)
    }
}

fn checked_vwap_difference(
    seller: &OrderBook,
    buyer: &OrderBook,
    size: Quantity,
    reference: Decimal,
) -> (r: Result<Option<Decimal>, Overflow>)
    ensures
        r == vwap_difference(*seller, *buyer, size, reference),
{
    let sold = match seller.checked_vwap_for_size(Side::Bid, size)? {
        Some(price) => price,
        None => return Ok(None),
    };
    let bought = match buyer.checked_vwap_for_size(Side::Ask, size)? {
        Some(price) => price,
        None => return Ok(None),
    };
    let bps = num::checked_difference_bps(sold.0, bought.0, reference)?;
    Ok(Some(bps))
}

fn checked_order_size(notional: Option<Decimal>, reference: Decimal) -> (r: Result<
    Option<Quantity>,
    Overflow,
>)
    ensures
        r == order_size(notional, reference),
{
    match notional {
        Some(n) => {
            if n.is_positive() {
                let size = n.checked_div(reference)?;
                Ok(Some(Quantity(size)))
            } else {
                Ok(None)
            }
        },
        None => Ok(None),
    }
}

/// What two books say of each other. With the books changed over, the differences change sign or
/// place and keep their size. The better direction sells where the mid price is not the lower one.
pub fn checked_spreads(book_a: &OrderBook, book_b: &OrderBook) -> (r: Result<
    Option<Spreads>,
    Overflow,
>)
    ensures
        r == spreads_of(*book_a, *book_b),
        r matches Ok(Some(spreads)) ==> spreads_of(*book_b, *book_a) == Ok::<
            Option<Spreads>,
            Overflow,
        >(Some(spreads.mirrored())),
        r matches Ok(Some(spreads)) ==> {
            &&& spreads.raw_bps.units() > 0 ==> spreads.mid_a.0.units() > spreads.mid_b.0.units()
            &&& spreads.raw_bps.units() < 0 ==> spreads.mid_a.0.units() < spreads.mid_b.0.units()
            &&& spreads.sell_a_buy_b_bps.units() > spreads.sell_b_buy_a_bps.units()
                ==> spreads.mid_a.0.units() >= spreads.mid_b.0.units()
            &&& spreads.sell_b_buy_a_bps.units() > spreads.sell_a_buy_b_bps.units()
                ==> spreads.mid_b.0.units() >= spreads.mid_a.0.units()
        },
{
    if book_a.symbol != book_b.symbol || book_a.dex == book_b.dex {
        return Ok(None);
    }
    let mid_a = match book_a.checked_mid()? {
        Some(mid) => mid,
        None => return Ok(None),
    };
    let mid_b = match book_b.checked_mid()? {
        Some(mid) => mid,
        None => return Ok(None),
    };
    let reference = num::checked_midpoint(mid_a.0, mid_b.0)?;
    if !reference.is_positive() {
        return Ok(None);
    }
    let raw_bps = num::checked_difference_bps(mid_a.0, mid_b.0, reference)?;
    let (bid_a, ask_a) = (book_a.bids[0].price.0, book_a.asks[0].price.0);
    let (bid_b, ask_b) = (book_b.bids[0].price.0, book_b.asks[0].price.0);
    let sell_a_buy_b_bps = num::checked_difference_bps(bid_a, ask_b, reference)?;
    let sell_b_buy_a_bps = num::checked_difference_bps(bid_b, ask_a, reference)?;
    proof {
        use_type_invariant(&bid_a);
        use_type_invariant(&ask_a);
        use_type_invariant(&bid_b);
        use_type_invariant(&ask_b);
        reveal(num::midpoint_keeps_order);
        reveal(num::difference_bps_keeps_order);
    }
    let depth_a = checked_thinner_depth(book_a)?;
    let depth_b = checked_thinner_depth(book_b)?;
    Ok(
        Some(
            Spreads {
                mid_a,
                mid_b,
                reference,
                raw_bps,
                sell_a_buy_b_bps,
                sell_b_buy_a_bps,
                depth_a,
                depth_b,
            },
        ),
    )
}

impl DivergenceSnapshot {
    /// The size of the order that is compared and the difference of its average prices.
    pub open spec fn order_of(
        a: OrderBook,
        b: OrderBook,
        spreads: Spreads,
        vwap_notional: Option<Decimal>,
    ) -> Result<(Option<Quantity>, Option<Decimal>), Overflow> {
        match order_size(vwap_notional, spreads.reference) {
            Ok(size) => match vwap_spread(a, b, spreads, size) {
                Ok(bps) => Ok((size, bps)),
                Err(e) => Err(e),
            },
            Err(e) => Err(e),
        }
    }

    /// The snapshot of two books that is made at the given times.
    pub open spec fn outcome(
        a: OrderBook,
        b: OrderBook,
        trigger_dex: Dex,
        vwap_notional: Option<Decimal>,
        at: Instant,
        wall_ms: u64,
    ) -> Result<Option<DivergenceSnapshot>, Overflow> {
        match spreads_of(a, b) {
            Ok(Some(spreads)) => match Self::order_of(a, b, spreads, vwap_notional) {
                Ok((size, bps)) => Ok(
                    Some(snapshot_of(a, b, trigger_dex, spreads, size, bps, at, wall_ms)),
                ),
                Err(e) => Err(e),
            },
            Ok(None) => Ok(None),
            Err(e) => Err(e),
        }
    }

    /// Whether the numbers of the comparison can be expressed.
    pub open spec fn computable(
        a: OrderBook,
        b: OrderBook,
        vwap_notional: Option<Decimal>,
    ) -> bool {
        match spreads_of(a, b) {
            Ok(Some(spreads)) => Self::order_of(a, b, spreads, vwap_notional) is Ok,
            Ok(None) => true,
            Err(_) => false,
        }
    }

    /// Whether the differences point to the venue with the higher mid price as the one to sell on.
    pub open spec fn dearer_is_sold(self) -> bool {
        let (a, b) = (self.mid_a.0.units(), self.mid_b.0.units());
        &&& self.raw_spread_bps.units() > 0 ==> a > b
        &&& self.raw_spread_bps.units() < 0 ==> a < b
        &&& self.executable_direction == ExecutableDirection::SellBBuyA ==> b >= a
    }

    /// Whether `other` says the same with the two books changed over: what is one venue's is the
    /// other's, the raw difference changes its sign, and the differences that can be traded stay as
    /// they are.
    pub open spec fn is_mirrored_by(self, other: DivergenceSnapshot) -> bool {
        &&& other.symbol == self.symbol
        &&& other.dex_a == self.dex_b && other.dex_b == self.dex_a
        &&& other.mid_a == self.mid_b && other.mid_b == self.mid_a
        &&& other.best_bid_a == self.best_bid_b && other.best_bid_b == self.best_bid_a
        &&& other.best_ask_a == self.best_ask_b && other.best_ask_b == self.best_ask_a
        &&& other.raw_spread_bps == self.raw_spread_bps.negated()
        &&& other.executable_spread_bps == self.executable_spread_bps
        &&& other.executable_direction != self.executable_direction
        &&& other.vwap_spread_bps == self.vwap_spread_bps
        &&& other.vwap_size == self.vwap_size
        &&& other.depth_a_bps10 == self.depth_b_bps10 && other.depth_b_bps10 == self.depth_a_bps10
        &&& other.book_crossed_a == self.book_crossed_b
        &&& other.book_crossed_b == self.book_crossed_a
        &&& other.trace_a == self.trace_b && other.trace_b == self.trace_a
    }

    /// Compares two books. With `vwap_notional`, the average prices of an order worth that much are
    /// compared too. `at` and `wall_ms` are the time of the comparison on the two clocks.
    pub fn checked_compute_at(
        book_a: &OrderBook,
        book_b: &OrderBook,
        trigger_dex: Dex,
        vwap_notional: Option<Decimal>,
        at: Instant,
        wall_ms: u64,
    ) -> (r: Result<Option<DivergenceSnapshot>, Overflow>)
        ensures
            r == Self::outcome(*book_a, *book_b, trigger_dex, vwap_notional, at, wall_ms),
            r is Ok <==> Self::computable(*book_a, *book_b, vwap_notional),
            r matches Ok(Some(s)) ==> s.dearer_is_sold(),
            spreads_of(*book_a, *book_b) matches Ok(Some(spreads))
                ==> spreads.sell_a_buy_b_bps.units() != spreads.sell_b_buy_a_bps.units() ==> (
            r matches Ok(Some(s)) ==> s.executable_direction == ExecutableDirection::SellABuyB
                ==> s.mid_a.0.units() >= s.mid_b.0.units()),
            spreads_of(*book_a, *book_b) matches Ok(Some(spreads))
                ==> spreads.sell_a_buy_b_bps.units() != spreads.sell_b_buy_a_bps.units() ==> (
            r matches Ok(Some(s)) ==> (Self::outcome(
                *book_b,
                *book_a,
                trigger_dex,
                vwap_notional,
                at,
                wall_ms,
            ) matches Ok(Some(other)) && s.is_mirrored_by(other))),
    {
        let spreads = match checked_spreads(book_a, book_b)? {
            Some(spreads) => spreads,
            None => return Ok(None),
        };
        let sells_b = spreads.sell_a_buy_b_bps.is_less(spreads.sell_b_buy_a_bps);
        let vwap_size = checked_order_size(vwap_notional, spreads.reference)?;
        let vwap_spread_bps = match vwap_size {
            Some(size) => if sells_b {
                checked_vwap_difference(book_b, book_a, size, spreads.reference)?
            } else {
                checked_vwap_difference(book_a, book_b, size, spreads.reference)?
            },
            None => None,
        };
        let mut trace_a = book_a.trace;
        let mut trace_b = book_b.trace;
        if trigger_dex == book_a.dex {
            trace_a.mark_evaluated_at(at);
        } else if trigger_dex == book_b.dex {
            trace_b.mark_evaluated_at(at);
        }
        let staleness_delta_ms: i64 = (book_a.trace.received_wall_ms as i64).wrapping_sub(
            book_b.trace.received_wall_ms as i64,
        );
        let (executable_spread_bps, executable_direction) = if sells_b {
            (spreads.sell_b_buy_a_bps, ExecutableDirection::SellBBuyA)
        } else {
            (spreads.sell_a_buy_b_bps, ExecutableDirection::SellABuyB)
        };
        Ok(
            Some(
                DivergenceSnapshot {
                    symbol: book_a.symbol,
                    dex_a: book_a.dex,
                    dex_b: book_b.dex,
                    mid_a: spreads.mid_a,
                    mid_b: spreads.mid_b,
                    best_bid_a: book_a.bids[0].price,
                    best_ask_a: book_a.asks[0].price,
                    best_bid_b: book_b.bids[0].price,
                    best_ask_b: book_b.asks[0].price,
                    raw_spread_bps: spreads.raw_bps,
                    executable_spread_bps,
                    executable_direction,
                    vwap_spread_bps,
                    vwap_size,
                    depth_a_bps10: spreads.depth_a,
                    depth_b_bps10: spreads.depth_b,
                    book_crossed_a: book_a.is_crossed(),
                    book_crossed_b: book_b.is_crossed(),
                    staleness_delta_ms,
                    computed_at_wall_ms: wall_ms,
                    trigger_dex,
                    trace_a,
                    trace_b,
                },
            ),
        )
    }

    /// Compares two books now.
    pub fn checked_compute(
        book_a: &OrderBook,
        book_b: &OrderBook,
        trigger_dex: Dex,
        vwap_notional: Option<Decimal>,
        clock: &Clock,
    ) -> (r: Result<Option<DivergenceSnapshot>, Overflow>)
        ensures
            exists|at: Instant, wall_ms: u64|
                r == #[trigger] Self::outcome(
                    *book_a,
                    *book_b,
                    trigger_dex,
                    vwap_notional,
                    at,
                    wall_ms,
                ),
            r is Ok <==> Self::computable(*book_a, *book_b, vwap_notional),
            r matches Ok(Some(s)) ==> s.dearer_is_sold(),
    {
        let at = clock.now();
        let wall_ms: u64 = time::now_wall_ms();
        Self::checked_compute_at(book_a, book_b, trigger_dex, vwap_notional, at, wall_ms)
    }

    /// Compares two books now.
    pub fn compute(
        book_a: &OrderBook,
        book_b: &OrderBook,
        trigger_dex: Dex,
        vwap_notional: Option<Decimal>,
        clock: &Clock,
    ) -> (r: Option<DivergenceSnapshot>)
        requires
            Self::computable(*book_a, *book_b, vwap_notional),
        ensures
            exists|at: Instant, wall_ms: u64|
                Ok::<Option<DivergenceSnapshot>, Overflow>(r) == #[trigger] Self::outcome(
                    *book_a,
                    *book_b,
                    trigger_dex,
                    vwap_notional,
                    at,
                    wall_ms,
                ),
            r matches Some(s) ==> s.dearer_is_sold(),
    {
        match Self::checked_compute(book_a, book_b, trigger_dex, vwap_notional, clock) {
            Ok(snapshot) => snapshot,
            Err(_) => None,
        }
    }

    /// Whether either book was crossed. Such a snapshot shows no opportunity.
    pub fn has_crossed_book(&self) -> (r: bool)
        ensures
            r == (self.book_crossed_a || self.book_crossed_b),
    {
        self.book_crossed_a || self.book_crossed_b
    }

    /// The span from coming in to the end of the comparison, in microseconds, of the book that had
    /// changed.
    pub open spec fn pipeline_us(self) -> Option<int> {
        let trace = if self.trigger_dex == self.dex_a {
            self.trace_a
        } else {
            self.trace_b
        };
        match trace.span_to(trace.evaluated_instant) {
            Some(span) => Some(
                if span.nanos as int / 1000 > u64::MAX {
                    u64::MAX as int
                } else {
                    span.nanos as int / 1000
                },
            ),
            None => None,
        }
    }

    /// The span from coming in to the end of the comparison, in microseconds, of the book that had
    /// changed.
    pub fn pipeline_latency_us(&self) -> (r: Option<u64>)
        ensures
            r is Some <==> self.pipeline_us() is Some,
            r matches Some(us) ==> self.pipeline_us() == Some(us as int),
    {
        let trace = if self.trigger_dex == self.dex_a {
            self.trace_a
        } else {
            self.trace_b
        };
        match trace.total_pipeline_latency() {
            Some(span) => {
                let us: u128 = span.as_micros();
                if us > u64::MAX as u128 {
                    Some(u64::MAX)
                } else {
                    Some(us as u64)
                }
            },
            None => None,
        }
    }

    /// How long the message of `dex` was under way, in milliseconds.
    pub open spec fn delay_ms(self, dex: Dex) -> Option<i64> {
        if dex == self.dex_a {
            self.trace_a.exchange_delay_ms()
        } else if dex == self.dex_b {
            self.trace_b.exchange_delay_ms()
        } else {
            None
        }
    }

    /// How long the message of `dex` was under way, in milliseconds by the wall clock.
    pub fn exchange_latency_ms(&self, dex: Dex) -> (r: Option<i64>)
        ensures
            r == self.delay_ms(dex),
    {
        if dex == self.dex_a {
            self.trace_a.exchange_to_local_ms()
        } else if dex == self.dex_b {
            self.trace_b.exchange_to_local_ms()
        } else {
            None
        }
    }
}

/// The direction that a snapshot gives is the better one of the two.
pub proof fn law_better_direction_is_taken(spreads: Spreads)
    ensures
        spreads.executable_bps().units() >= spreads.sell_a_buy_b_bps.units(),
        spreads.executable_bps().units() >= spreads.sell_b_buy_a_bps.units(),
{
}

/// With the books changed over, the better difference stays as it is, and the direction turns round
/// unless both directions are equally good.
pub proof fn law_mirrored_spreads_keep_the_better_difference(spreads: Spreads)
    ensures
        spreads.mirrored().executable_bps().units() == spreads.executable_bps().units(),
        spreads.sell_a_buy_b_bps.units() != spreads.sell_b_buy_a_bps.units()
            ==> spreads.mirrored().direction() != spreads.direction(),
{
}

/// Only the trace of the venue whose book had changed gets a time of evaluation: the other one keeps
/// what it had.
pub proof fn law_only_the_changed_book_is_timed(
    a: OrderBook,
    b: OrderBook,
    trigger_dex: Dex,
    vwap_notional: Option<Decimal>,
    at: Instant,
    wall_ms: u64,
)
    ensures
        DivergenceSnapshot::outcome(a, b, trigger_dex, vwap_notional, at, wall_ms) matches Ok(Some(s))
            ==> {
            &&& trigger_dex == a.dex ==> s.trace_a.evaluated_instant == Some(at) && s.trace_b
                == b.trace
            &&& trigger_dex == b.dex ==> s.trace_b.evaluated_instant == Some(at) && s.trace_a
                == a.trace
        },
{
}

/// The four best prices of two books.
pub open spec fn has_best_prices(a: OrderBook, b: OrderBook) -> bool {
    a.bids@.len() > 0 && a.asks@.len() > 0 && b.bids@.len() > 0 && b.asks@.len() > 0
}

/// What the bid of the first book brings above what the ask of the second one costs, in the units of
/// a decimal.
pub open spec fn gain(seller: OrderBook, buyer: OrderBook) -> int {
    seller.bids@[0].price.0.units() - buyer.asks@[0].price.0.units()
}

/// A snapshot speaks of the two books that it was made of: their instrument, their venues, their best
/// prices, whether they cross, and when they came in.
pub proof fn law_snapshot_speaks_of_its_books(
    a: OrderBook,
    b: OrderBook,
    trigger_dex: Dex,
    vwap_notional: Option<Decimal>,
    at: Instant,
    wall_ms: u64,
)
    ensures
        DivergenceSnapshot::outcome(a, b, trigger_dex, vwap_notional, at, wall_ms) matches Ok(Some(s))
            ==> {
            &&& a.symbol == b.symbol && a.dex != b.dex && has_best_prices(a, b)
            &&& s.symbol == a.symbol && s.dex_a == a.dex && s.dex_b == b.dex
            &&& s.best_bid_a == a.bids@[0].price && s.best_ask_a == a.asks@[0].price
            &&& s.best_bid_b == b.bids@[0].price && s.best_ask_b == b.asks@[0].price
            &&& s.book_crossed_a == (s.best_bid_a.0.units() >= s.best_ask_a.0.units())
            &&& s.book_crossed_b == (s.best_bid_b.0.units() >= s.best_ask_b.0.units())
            &&& a.trace.received_wall_ms <= i64::MAX && b.trace.received_wall_ms <= i64::MAX
                ==> s.staleness_delta_ms == a.trace.received_wall_ms - b.trace.received_wall_ms
            &&& s.computed_at_wall_ms == wall_ms
            &&& s.trigger_dex == trigger_dex
            &&& s.trace_a.received_instant == a.trace.received_instant
            &&& s.trace_b.received_instant == b.trace.received_instant
            &&& s.trace_a.exchange_ts_ms == a.trace.exchange_ts_ms
            &&& s.trace_b.exchange_ts_ms == b.trace.exchange_ts_ms
            &&& s.trace_a.received_wall_ms == a.trace.received_wall_ms
            &&& s.trace_b.received_wall_ms == b.trace.received_wall_ms
            &&& s.trace_a.normalized_instant == a.trace.normalized_instant
            &&& s.trace_b.normalized_instant == b.trace.normalized_instant
        },
{
}

/// The depth of a venue is what can be had within the basis points on that one of its sides where it
/// is less.
pub proof fn law_depth_is_that_of_the_thinner_side(
    a: OrderBook,
    b: OrderBook,
    trigger_dex: Dex,
    vwap_notional: Option<Decimal>,
    at: Instant,
    wall_ms: u64,
)
    ensures
        DivergenceSnapshot::outcome(a, b, trigger_dex, vwap_notional, at, wall_ms) matches Ok(Some(s))
            ==> {
            &&& is_thinner_depth(a, s.depth_a_bps10)
            &&& is_thinner_depth(b, s.depth_b_bps10)
        },
{
}

/// Whether `depth` is the lesser of what the two sides of `book` hold within the basis points.
pub open spec fn is_thinner_depth(book: OrderBook, depth: Quantity) -> bool {
    match (
        book::depth_within(book.bids@, Side::Bid, DEPTH_SLIPPAGE_BPS),
        book::depth_within(book.asks@, Side::Ask, DEPTH_SLIPPAGE_BPS),
    ) {
        (Ok(bid), Ok(ask)) => {
            &&& depth == bid || depth == ask
            &&& depth.0.units() <= bid.0.units()
            &&& depth.0.units() <= ask.0.units()
        },
        _ => false,
    }
}

/// The executable difference is that of the bid of the venue that is sold on less the ask of the
/// venue that is bought on, and no other direction gives more. The raw difference is that of the mid
/// prices. Both are measured by the point halfway between the mid prices.
pub proof fn law_differences_are_those_of_the_prices_traded_at(
    a: OrderBook,
    b: OrderBook,
    trigger_dex: Dex,
    vwap_notional: Option<Decimal>,
    at: Instant,
    wall_ms: u64,
)
    ensures
        DivergenceSnapshot::outcome(a, b, trigger_dex, vwap_notional, at, wall_ms) matches Ok(Some(s))
            ==> {
            let reference = num::midpoint(s.mid_a.0, s.mid_b.0);
            &&& reference matches Ok(r) && r.units() > 0
            &&& num::midpoint(s.best_bid_a.0, s.best_ask_a.0) == Ok::<Decimal, Overflow>(s.mid_a.0)
            &&& num::midpoint(s.best_bid_b.0, s.best_ask_b.0) == Ok::<Decimal, Overflow>(s.mid_b.0)
            &&& num::difference_bps(s.mid_a.0, s.mid_b.0, reference.unwrap()) == Ok::<
                Decimal,
                Overflow,
            >(s.raw_spread_bps)
            &&& (match s.executable_direction {
                ExecutableDirection::SellABuyB => num::difference_bps(
                    s.best_bid_a.0,
                    s.best_ask_b.0,
                    reference.unwrap(),
                ),
                ExecutableDirection::SellBBuyA => num::difference_bps(
                    s.best_bid_b.0,
                    s.best_ask_a.0,
                    reference.unwrap(),
                ),
            }) == Ok::<Decimal, Overflow>(s.executable_spread_bps)
            &&& (match s.executable_direction {
                ExecutableDirection::SellABuyB => num::difference_bps(
                    s.best_bid_b.0,
                    s.best_ask_a.0,
                    reference.unwrap(),
                ),
                ExecutableDirection::SellBBuyA => num::difference_bps(
                    s.best_bid_a.0,
                    s.best_ask_b.0,
                    reference.unwrap(),
                ),
            }) matches Ok(other) && other.units() <= s.executable_spread_bps.units()
        },
{
}

/// Where decimals can hold every number on the way, the differences are exactly those of the prices,
/// in basis points of the mean of the four best prices: the raw one that of the mid prices, the
/// executable one what is gained by selling to the bid of one venue and buying from the ask of the
/// other, in the direction in which more is gained.
pub proof fn law_differences_are_exact(
    a: OrderBook,
    b: OrderBook,
    trigger_dex: Dex,
    vwap_notional: Option<Decimal>,
    at: Instant,
    wall_ms: u64,
    mid_a: Decimal,
    mid_b: Decimal,
    reference: Decimal,
    raw: Decimal,
    sell_a: Decimal,
    sell_b: Decimal,
)
    requires
        has_best_prices(a, b),
        ({
            let (bid_a, ask_a) = (a.bids@[0].price.0.units(), a.asks@[0].price.0.units());
            let (bid_b, ask_b) = (b.bids@[0].price.0.units(), b.asks@[0].price.0.units());
            &&& decimal::expressible(bid_a + ask_a) && mid_a.valid() && 2 * mid_a.units() == bid_a
                + ask_a
            &&& decimal::expressible(bid_b + ask_b) && mid_b.valid() && 2 * mid_b.units() == bid_b
                + ask_b
            &&& decimal::expressible(mid_a.units() + mid_b.units()) && reference.valid() && 2
                * reference.units() == mid_a.units() + mid_b.units()
        }),
        num::is_bps_of(mid_a.units() - mid_b.units(), reference, raw),
        num::is_bps_of(gain(a, b), reference, sell_a),
        num::is_bps_of(gain(b, a), reference, sell_b),
    ensures
        DivergenceSnapshot::outcome(a, b, trigger_dex, vwap_notional, at, wall_ms) matches Ok(Some(s))
            ==> {
            let t = decimal::pow10(28);
            let r = reference.units();
            &&& r > 0
            &&& s.mid_a.0 == mid_a && s.mid_b.0 == mid_b
            &&& s.raw_spread_bps.units() * r == 10000 * (mid_a.units() - mid_b.units()) * t
            &&& s.executable_direction == ExecutableDirection::SellABuyB <==> gain(a, b) >= gain(
                b,
                a,
            )
            &&& s.executable_spread_bps.units() * r == 10000 * (if gain(a, b) >= gain(b, a) {
                gain(a, b)
            } else {
                gain(b, a)
            }) * t
        },
{
    let (bid_a, ask_a) = (a.bids@[0].price.0, a.asks@[0].price.0);
    let (bid_b, ask_b) = (b.bids@[0].price.0, b.asks@[0].price.0);
    num::law_midpoint_lies_halfway(bid_a, ask_a, mid_a);
    num::law_midpoint_lies_halfway(bid_b, ask_b, mid_b);
    num::law_midpoint_lies_halfway(mid_a, mid_b, reference);
    if reference.units() > 0 {
        num::law_difference_in_bps_is_exact(mid_a, mid_b, reference, raw);
        num::law_difference_in_bps_is_exact(bid_a, ask_b, reference, sell_a);
        num::law_difference_in_bps_is_exact(bid_b, ask_a, reference, sell_b);
        decimal::lemma_pow10_positive(28);
        let (x, y, g, h, r, t) = (
            sell_a.units(),
            sell_b.units(),
            gain(a, b),
            gain(b, a),
            reference.units(),
            decimal::pow10(28),
        );
        assert(x >= y <==> g >= h) by (nonlinear_arith)
            requires
                r > 0,
                t > 0,
                x * r == 10000 * g * t,
                y * r == 10000 * h * t,
        ;
    }
}

/// The order that is compared is worth the notional around the reference price; without a notional
/// above zero there is no order and no difference of average prices.
pub proof fn law_order_is_worth_the_notional(
    a: OrderBook,
    b: OrderBook,
    trigger_dex: Dex,
    vwap_notional: Option<Decimal>,
    at: Instant,
    wall_ms: u64,
)
    ensures
        DivergenceSnapshot::outcome(a, b, trigger_dex, vwap_notional, at, wall_ms) matches Ok(Some(s))
            ==> match vwap_notional {
            Some(notional) if notional.units() > 0 => s.vwap_size matches Some(size) && (
            num::midpoint(s.mid_a.0, s.mid_b.0) matches Ok(reference) && decimal::quotient_of(
                notional,
                reference,
            ) == Ok::<Decimal, Overflow>(size.0)),
            _ => s.vwap_size is None && s.vwap_spread_bps is None,
        },
{
}

/// The difference of the average prices goes the way of the executable one: `sold` is the average of
/// selling the order to the bids of the venue that is sold on, `bought` that of buying it from the
/// asks of the other. Where a side is too thin there is none.
pub proof fn law_average_prices_go_the_executable_way(
    a: OrderBook,
    b: OrderBook,
    trigger_dex: Dex,
    vwap_notional: Option<Decimal>,
    at: Instant,
    wall_ms: u64,
)
    ensures
        DivergenceSnapshot::outcome(a, b, trigger_dex, vwap_notional, at, wall_ms) matches Ok(Some(s))
            ==> (s.vwap_size matches Some(size) ==> {
            let (seller, buyer) = if s.executable_direction == ExecutableDirection::SellABuyB {
                (a, b)
            } else {
                (b, a)
            };
            match (book::vwap(seller.bids@, size.0), book::vwap(buyer.asks@, size.0)) {
                (Ok(Some(sold)), Ok(Some(bought))) => s.vwap_spread_bps matches Some(bps) && (
                num::midpoint(s.mid_a.0, s.mid_b.0) matches Ok(reference) && num::difference_bps(
                    sold.0,
                    bought.0,
                    reference,
                ) == Ok::<Decimal, Overflow>(bps)),
                _ => s.vwap_spread_bps is None,
            }
        }),
{
}

/// Where decimals can hold every number on the way, the difference of the average prices is exactly
/// what it brings to sell the order to the bids of the venue that is sold on, less what it costs to
/// buy it from the asks of the other, per piece, in basis points of the reference price.
pub proof fn law_average_price_difference_is_exact(
    a: OrderBook,
    b: OrderBook,
    trigger_dex: Dex,
    vwap_notional: Option<Decimal>,
    at: Instant,
    wall_ms: u64,
    reference: Decimal,
    sold: Decimal,
    bought: Decimal,
    bps: Decimal,
)
    ensures
        DivergenceSnapshot::outcome(a, b, trigger_dex, vwap_notional, at, wall_ms) matches Ok(Some(s))
            ==> (s.vwap_size matches Some(size) ==> {
            let (seller, buyer) = if s.executable_direction == ExecutableDirection::SellABuyB {
                (a, b)
            } else {
                (b, a)
            };
            num::midpoint(s.mid_a.0, s.mid_b.0) == Ok::<Decimal, Overflow>(reference)
                && liquidity::is_average(seller.bids@, size.0, sold) && liquidity::is_average(
                buyer.asks@,
                size.0,
                bought,
            ) && num::is_bps_of(sold.units() - bought.units(), reference, bps) ==> {
                &&& s.vwap_spread_bps == Some(bps)
                &&& bps.units() * reference.units() * size.0.units() == 10000 * decimal::pow10(28)
                    * (liquidity::cost_from_first(seller.bids@, size.0.units())
                    - liquidity::cost_from_first(buyer.asks@, size.0.units()))
            }
        }),
{
    if let Ok(Some(s)) = DivergenceSnapshot::outcome(
        a,
        b,
        trigger_dex,
        vwap_notional,
        at,
        wall_ms,
    ) {
        if let Some(size) = s.vwap_size {
            let (seller, buyer) = if s.executable_direction == ExecutableDirection::SellABuyB {
                (a, b)
            } else {
                (b, a)
            };
            if num::midpoint(s.mid_a.0, s.mid_b.0) == Ok::<Decimal, Overflow>(reference)
                && liquidity::is_average(seller.bids@, size.0, sold) && liquidity::is_average(
                buyer.asks@,
                size.0,
                bought,
            ) && num::is_bps_of(sold.units() - bought.units(), reference, bps) {
                liquidity::law_average_price_is_exact(seller.bids@, size.0, sold);
                liquidity::law_average_price_is_exact(buyer.asks@, size.0, bought);
                num::law_difference_in_bps_is_exact(sold, bought, reference, bps);
                let (x, r, n, t) = (
                    bps.units(),
                    reference.units(),
                    size.0.units(),
                    decimal::pow10(28),
                );
                let (p, q) = (sold.units(), bought.units());
                assert(x * r * n == 10000 * t * (p * n - q * n)) by (nonlinear_arith)
                    requires
                        x * r == 10000 * (p - q) * t,
                ;
            }
        }
    }
}

/// An order that the best level of either side holds, with costs that decimals can hold, is traded at
/// the best prices: the difference of its average prices is the executable difference.
pub proof fn law_small_order_has_the_executable_difference(
    a: OrderBook,
    b: OrderBook,
    trigger_dex: Dex,
    vwap_notional: Option<Decimal>,
    at: Instant,
    wall_ms: u64,
    size: Quantity,
    sold: Decimal,
    bought: Decimal,
)
    requires
        has_best_prices(a, b),
        size.0.valid(),
        size.0.units() > 0,
    ensures
        DivergenceSnapshot::outcome(a, b, trigger_dex, vwap_notional, at, wall_ms) matches Ok(Some(s))
            ==> (s.vwap_size == Some(size) ==> {
            let (seller, buyer) = if s.executable_direction == ExecutableDirection::SellABuyB {
                (a, b)
            } else {
                (b, a)
            };
            let (bid, ask) = (seller.bids@[0], buyer.asks@[0]);
            &&& bid.price.0.valid() && decimal::is_product(size.0, bid.price.0, sold)
            &&& ask.price.0.valid() && decimal::is_product(size.0, ask.price.0, bought)
            &&& size.0.units() <= bid.quantity.0.units() && size.0.units() <= ask.quantity.0.units()
        } ==> s.vwap_spread_bps == Some(s.executable_spread_bps)),
{
    if let Ok(Some(s)) = DivergenceSnapshot::outcome(
        a,
        b,
        trigger_dex,
        vwap_notional,
        at,
        wall_ms,
    ) {
        let (seller, buyer) = if s.executable_direction == ExecutableDirection::SellABuyB {
            (a, b)
        } else {
            (b, a)
        };
        let (bid, ask) = (seller.bids@[0], buyer.asks@[0]);
        if bid.price.0.valid() && decimal::is_product(size.0, bid.price.0, sold)
            && ask.price.0.valid() && decimal::is_product(size.0, ask.price.0, bought)
            && size.0.units() <= bid.quantity.0.units() && size.0.units()
            <= ask.quantity.0.units() {
            liquidity::law_small_order_is_filled_at_the_best_price(seller.bids@, size.0, sold);
            liquidity::law_small_order_is_filled_at_the_best_price(buyer.asks@, size.0, bought);
        }
    }
}

/// With the books changed over, the difference of the average prices stays as it is where the two
/// directions are not equally good.
pub proof fn law_changing_the_books_over_keeps_the_average_difference(
    a: OrderBook,
    b: OrderBook,
    spreads: Spreads,
    size: Option<Quantity>,
)
    requires
        spreads.sell_a_buy_b_bps.units() != spreads.sell_b_buy_a_bps.units(),
    ensures
        vwap_spread(b, a, spreads.mirrored(), size) == vwap_spread(a, b, spreads, size),
{
}

/// A snapshot is made exactly of two books of one instrument on two venues, each with both sides, and
/// with prices above zero.
pub proof fn law_when_a_snapshot_is_made(
    a: OrderBook,
    b: OrderBook,
    trigger_dex: Dex,
    vwap_notional: Option<Decimal>,
    at: Instant,
    wall_ms: u64,
)
    ensures
        ({
            let r = DivergenceSnapshot::outcome(a, b, trigger_dex, vwap_notional, at, wall_ms);
            &&& a.symbol != b.symbol || a.dex == b.dex ==> r == Ok::<
                Option<DivergenceSnapshot>,
                Overflow,
            >(None)
            &&& a.symbol == b.symbol && a.dex != b.dex && has_best_prices(a, b) ==> match (
                num::midpoint(a.bids@[0].price.0, a.asks@[0].price.0),
                num::midpoint(b.bids@[0].price.0, b.asks@[0].price.0),
            ) {
                (Ok(mid_a), Ok(mid_b)) => match num::midpoint(mid_a, mid_b) {
                    Ok(reference) => reference.units() > 0 ==> !(r matches Ok(None)),
                    Err(_) => r is Err,
                },
                _ => r is Err,
            }
        }),
{
}

/// The latency of the pipeline is that of the book that had changed, in whole microseconds from its
/// coming in to its evaluation; the latency of a venue's message is the delay of that venue's book.
pub proof fn law_latencies_are_those_of_the_right_book(s: DivergenceSnapshot)
    ensures
        ({
            let trace = if s.trigger_dex == s.dex_a {
                s.trace_a
            } else {
                s.trace_b
            };
            match trace.evaluated_instant {
                Some(at) => s.pipeline_us() matches Some(us) && 0 <= us <= u64::MAX && (at.nanos
                    >= trace.received_instant.nanos ==> us * 1000 <= at.nanos
                    - trace.received_instant.nanos < (us + 1) * 1000),
                None => s.pipeline_us() is None,
            }
        }),
        s.dex_a != s.dex_b ==> s.delay_ms(s.dex_a) == s.trace_a.exchange_delay_ms() && s.delay_ms(
            s.dex_b,
        ) == s.trace_b.exchange_delay_ms(),
{
}

} // verus!
