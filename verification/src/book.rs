//! The order book, made the same for every venue.

use vstd::prelude::*;

use crate::decimal;
use crate::decimal::{Decimal, Overflow};
use crate::liquidity;
use crate::num;
use crate::num::{Price, Quantity};
use crate::symbol::{Dex, Symbol};
use crate::trace::MessageTrace;

verus! {

/// A side of the book. Where an order is to be filled, the side that it eats into: `Ask` for a
/// purchase, `Bid` for a sale.
#[derive(Clone, Copy, Debug, PartialEq, Eq, Hash, Structural)]
pub enum Side {
    Bid,
    Ask,
}

/// One level of the book.
#[derive(Clone, Copy, Debug, PartialEq, Eq, Structural)]
pub struct Level {
    pub price: Price,
    pub quantity: Quantity,
}

/// A snapshot of a book.
#[derive(Clone, Debug)]
pub struct OrderBook {
    pub dex: Dex,
    pub symbol: Symbol,
    /// From the highest price down.
    pub bids: Vec<Level>,
    /// From the lowest price up.
    pub asks: Vec<Level>,
    pub trace: MessageTrace,
}

/// What a book says.
#[verifier::ext_equal]
pub struct BookView {
    pub dex: Dex,
    pub symbol: Symbol,
    pub bids: Seq<Level>,
    pub asks: Seq<Level>,
    pub trace: MessageTrace,
}

impl View for OrderBook {
    type V = BookView;

    open spec fn view(&self) -> BookView {
        BookView {
            dex: self.dex,
            symbol: self.symbol,
            bids: self.bids@,
            asks: self.asks@,
            trace: self.trace,
        }
    }
}

impl BookView {
    /// Whether the best bid is not below the best ask.
    pub open spec fn crossed(self) -> bool {
        self.bids.len() > 0 && self.asks.len() > 0 && self.bids[0].price.0.units()
            >= self.asks[0].price.0.units()
    }
}

/// What is wrong with a book.
#[derive(Clone, Copy, Debug, PartialEq, Eq, Structural)]
pub enum BookIntegrityError {
    BidsNotDescending,
    AsksNotAscending,
    /// The best bid is not below the best ask.
    Crossed { best_bid: Price, best_ask: Price },
    NonPositiveQuantity,
}

impl Side {
    /// The other side.
    pub fn opposite(&self) -> (r: Side)
        ensures
            r == match *self {
                Side::Bid => Side::Ask,
                Side::Ask => Side::Bid,
            },
    {
        match self {
            Side::Bid => Side::Ask,
            Side::Ask => Side::Bid,
        }
    }

    /// The side's name.
    pub fn as_str(&self) -> (r: &'static str)
        ensures
            r@ == match *self {
                Side::Bid => "bid"@,
                Side::Ask => "ask"@,
            },
    {
        match self {
            Side::Bid => "bid",
            Side::Ask => "ask",
        }
    }
}

/// Whether no price is below a later one.
pub open spec fn descending(levels: Seq<Level>) -> bool {
    forall|i: int, j: int|
        0 <= i <= j < levels.len() ==> (#[trigger] levels[i]).price.0.units() >= (
        #[trigger] levels[j]).price.0.units()
}

/// Whether no price is above a later one.
pub open spec fn ascending(levels: Seq<Level>) -> bool {
    forall|i: int, j: int|
        0 <= i <= j < levels.len() ==> (#[trigger] levels[i]).price.0.units() <= (
        #[trigger] levels[j]).price.0.units()
}

/// Whether every quantity is above zero.
pub open spec fn all_positive(levels: Seq<Level>) -> bool {
    forall|i: int| 0 <= i < levels.len() ==> (#[trigger] levels[i]).quantity.0.units() > 0
}

/// The lesser of `a` and `b`.
pub open spec fn lesser(a: Decimal, b: Decimal) -> Decimal {
    if b.units() < a.units() {
        b
    } else {
        a
    }
}

/// What is left of an order for `remaining`, and what its filled part costs, once it has eaten into
/// `levels` from the first on; `cost` is what was spent before. Levels without a positive quantity
/// are passed over.
pub open spec fn eaten(levels: Seq<Level>, remaining: Decimal, cost: Decimal) -> Result<
    (Decimal, Decimal),
    Overflow,
>
    decreases levels.len(),
{
    if levels.len() == 0 || remaining.units() <= 0 {
        Ok((remaining, cost))
    } else {
        let level = levels[0];
        let rest = levels.subrange(1, levels.len() as int);
        if level.quantity.0.units() <= 0 {
            eaten(rest, remaining, cost)
        } else {
            let take = lesser(remaining, level.quantity.0);
            match decimal::product_of(take, level.price.0) {
                Ok(paid) => match decimal::sum_of(cost, paid) {
                    Ok(cost) => match decimal::difference_of(remaining, take) {
                        Ok(remaining) => eaten(rest, remaining, cost),
                        Err(e) => Err(e),
                    },
                    Err(e) => Err(e),
                },
                Err(e) => Err(e),
            }
        }
    }
}

/// The average price of an order for `size` that eats into `levels`; nothing where `size` is not
/// positive or the levels do not hold enough.
pub open spec fn vwap(levels: Seq<Level>, size: Decimal) -> Result<Option<Price>, Overflow> {
    if size.units() <= 0 {
        Ok(None)
    } else {
        match eaten(levels, size, Decimal::whole(0)) {
            Ok((remaining, cost)) => if remaining.units() > 0 {
                Ok(None)
            } else {
                match decimal::quotient_of(cost, size) {
                    Ok(price) => Ok(Some(Price(price))),
                    Err(e) => Err(e),
                }
            },
            Err(e) => Err(e),
        }
    }
}

/// The worst price that is still within `bps` basis points of `best`, for an order that eats into
/// `side`: above `best` for a purchase, below it for a sale.
pub open spec fn slippage_bound(side: Side, best: Decimal, bps: u32) -> Result<Decimal, Overflow> {
    match decimal::quotient_of(Decimal::whole(bps as int), num::bps_per_one()) {
        Ok(ratio) => match side {
            Side::Ask => match decimal::sum_of(Decimal::whole(1), ratio) {
                Ok(factor) => decimal::product_of(best, factor),
                Err(e) => Err(e),
            },
            Side::Bid => match decimal::difference_of(Decimal::whole(1), ratio) {
                Ok(factor) => decimal::product_of(best, factor),
                Err(e) => Err(e),
            },
        },
        Err(e) => Err(e),
    }
}

/// Whether `price` is no worse than `bound` for an order that eats into `side`.
pub open spec fn within(side: Side, price: Decimal, bound: Decimal) -> bool {
    match side {
        Side::Ask => price.units() <= bound.units(),
        Side::Bid => price.units() >= bound.units(),
    }
}

/// `total` and the positive quantities of `levels`, up to the first price that is worse than
/// `bound`.
pub open spec fn size_within(
    levels: Seq<Level>,
    side: Side,
    bound: Decimal,
    total: Decimal,
) -> Result<Decimal, Overflow>
    decreases levels.len(),
{
    if levels.len() == 0 || !within(side, levels[0].price.0, bound) {
        Ok(total)
    } else {
        let rest = levels.subrange(1, levels.len() as int);
        if levels[0].quantity.0.units() <= 0 {
            size_within(rest, side, bound, total)
        } else {
            match decimal::sum_of(total, levels[0].quantity.0) {
                Ok(total) => size_within(rest, side, bound, total),
                Err(e) => Err(e),
            }
        }
    }
}

/// The quantity that can be had from `levels` within `bps` basis points of their first price; zero
/// where there are none.
pub open spec fn depth_within(levels: Seq<Level>, side: Side, bps: u32) -> Result<
    Quantity,
    Overflow,
> {
    if levels.len() == 0 {
        Ok(Quantity(Decimal::whole(0)))
    } else {
        match slippage_bound(side, levels[0].price.0, bps) {
            Ok(bound) => match size_within(levels, side, bound, Decimal::whole(0)) {
                Ok(total) => Ok(Quantity(total)),
                Err(e) => Err(e),
            },
            Err(e) => Err(e),
        }
    }
}

/// Whether no lesser count of basis points than `bps` gives more than `r` does, where the first price
/// is not below zero.
pub open spec fn wider_is_deeper(
    levels: Seq<Level>,
    side: Side,
    bps: u32,
    r: Result<Quantity, Overflow>,
) -> bool {
    levels.len() > 0 ==> levels[0].price.0.units() >= 0 ==> forall|fewer: u32|
        fewer <= bps ==> match (#[trigger] depth_within(levels, side, fewer), r) {
            (Ok(less), Ok(more)) => less.0.units() <= more.0.units(),
            _ => true,
        }
}

impl Level {
    /// The level `quantity` at `price`.
    pub fn new(price: Price, quantity: Quantity) -> (r: Level)
        ensures
            r == (Level { price, quantity }),
    {
        Level { price, quantity }
    }
}

/// Whether every price is followed by none that is higher (`down`) or lower (not `down`).
fn is_sorted(levels: &Vec<Level>, down: bool) -> (r: bool)
    ensures
        r == if down {
            descending(levels@)
        } else {
            ascending(levels@)
        },
{
    let n: usize = levels.len();
    let mut i: usize = 1;
    while i < n
        invariant
            1 <= i,
            n == levels@.len(),
            i <= n || n == 0,
            down ==> descending(levels@.take(if i <= n { i as int } else { n as int })),
            !down ==> ascending(levels@.take(if i <= n { i as int } else { n as int })),
        decreases n - i,
    {
        let before = levels[i - 1].price.0;
        let after = levels[i].price.0;
        let wrong = if down {
            before.is_less(after)
        } else {
            after.is_less(before)
        };
        if wrong {
            proof {
                assert(levels@[i - 1].price.0 == before);
                assert(levels@[i as int].price.0 == after);
                assert(!(if down { descending(levels@) } else { ascending(levels@) }));
            }
            return false;
        }
        proof {
            let t = levels@.take(i as int);
            let u = levels@.take(i + 1);
            assert(t[i - 1] == levels@[i - 1]);
            assert forall|a: int, b: int| 0 <= a <= b < u.len() implies (if down {
                (#[trigger] u[a]).price.0.units() >= (#[trigger] u[b]).price.0.units()
            } else {
                u[a].price.0.units() <= u[b].price.0.units()
            }) by {
                if b < i {
                    assert(u[a] == t[a] && u[b] == t[b]);
                } else if a < i {
                    assert(u[a] == t[a]);
                    assert(if down {
                        t[a].price.0.units() >= t[i - 1].price.0.units()
                    } else {
                        t[a].price.0.units() <= t[i - 1].price.0.units()
                    });
                }
            }
        }
        i += 1;
    }
    proof {
        assert(levels@.take(n as int) =~= levels@);
    }
    true
}

/// Whether every quantity is above zero.
fn is_all_positive(levels: &Vec<Level>) -> (r: bool)
    ensures
        r == all_positive(levels@),
{
    let n: usize = levels.len();
    let mut i: usize = 0;
    while i < n
        invariant
            i <= n,
            n == levels@.len(),
            forall|j: int| 0 <= j < i ==> (#[trigger] levels@[j]).quantity.0.units() > 0,
        decreases n - i,
    {
        if !levels[i].quantity.is_positive() {
            return false;
        }
        i += 1;
    }
    true
}

impl OrderBook {
    /// The levels of `side`, the best first.
    pub open spec fn side_levels(self, side: Side) -> Seq<Level> {
        match side {
            Side::Bid => self.bids@,
            Side::Ask => self.asks@,
        }
    }

    /// The first price of `side`.
    pub open spec fn best(self, side: Side) -> Option<Price> {
        if self.side_levels(side).len() == 0 {
            None
        } else {
            Some(self.side_levels(side)[0].price)
        }
    }

    /// The point halfway between the best prices, where there are two.
    pub open spec fn mid_outcome(self) -> Result<Option<Price>, Overflow> {
        match (self.best(Side::Bid), self.best(Side::Ask)) {
            (Some(bid), Some(ask)) => match num::midpoint(bid.0, ask.0) {
                Ok(mid) => Ok(Some(Price(mid))),
                Err(e) => Err(e),
            },
            _ => Ok(None),
        }
    }

    /// The best ask less the best bid, in basis points of the point halfway; nothing where a side
    /// is empty or that point is zero.
    pub open spec fn spread_bps_outcome(self) -> Result<Option<Decimal>, Overflow> {
        match (self.best(Side::Bid), self.best(Side::Ask), self.mid_outcome()) {
            (Some(bid), Some(ask), Ok(Some(mid))) => if mid.0.units() == 0 {
                Ok(None)
            } else {
                match num::difference_bps(ask.0, bid.0, mid.0) {
                    Ok(bps) => Ok(Some(bps)),
                    Err(e) => Err(e),
                }
            },
            (_, _, Err(e)) => Err(e),
            _ => Ok(None),
        }
    }

    /// How far the average price of an order for `size` that eats into `side` is worse than the
    /// best price, in basis points of it; nothing where there is no such order or no best price but
    /// zero.
    pub open spec fn slippage_bps_outcome(self, side: Side, size: Quantity) -> Result<
        Option<Decimal>,
        Overflow,
    > {
        match self.best(side) {
            Some(best) => if best.0.units() == 0 {
                Ok(None)
            } else {
                match vwap(self.side_levels(side), size.0) {
                    Ok(Some(price)) => match (match side {
                        Side::Bid => num::difference_bps(best.0, price.0, best.0),
                        Side::Ask => num::difference_bps(price.0, best.0, best.0),
                    }) {
                        Ok(bps) => Ok(Some(bps)),
                        Err(e) => Err(e),
                    },
                    Ok(None) => Ok(None),
                    Err(e) => Err(e),
                }
            },
            None => Ok(None),
        }
    }

    /// Whether the best bid is not below the best ask.
    pub open spec fn crossed(self) -> bool {
        match (self.best(Side::Bid), self.best(Side::Ask)) {
            (Some(bid), Some(ask)) => bid.0.units() >= ask.0.units(),
            _ => false,
        }
    }

    /// What is wrong with the book, a crossing left aside.
    pub open spec fn fault_but_crossing(self) -> Option<BookIntegrityError> {
        if !descending(self.bids@) {
            Some(BookIntegrityError::BidsNotDescending)
        } else if !ascending(self.asks@) {
            Some(BookIntegrityError::AsksNotAscending)
        } else if !all_positive(self.bids@) || !all_positive(self.asks@) {
            Some(BookIntegrityError::NonPositiveQuantity)
        } else {
            None
        }
    }

    /// What is wrong with the book.
    pub open spec fn fault(self) -> Option<BookIntegrityError> {
        match self.fault_but_crossing() {
            Some(e) => Some(e),
            None => if self.crossed() {
                Some(
                    BookIntegrityError::Crossed {
                        best_bid: self.best(Side::Bid).unwrap(),
                        best_ask: self.best(Side::Ask).unwrap(),
                    },
                )
            } else {
                None
            },
        }
    }

    /// The book with the given parts.
    pub fn new(
        dex: Dex,
        symbol: Symbol,
        bids: Vec<Level>,
        asks: Vec<Level>,
        trace: MessageTrace,
    ) -> (r: OrderBook)
        ensures
            r == (OrderBook { dex, symbol, bids, asks, trace }),
    {
        OrderBook { dex, symbol, bids, asks, trace }
    }

    /// The highest bid.
    pub fn best_bid(&self) -> (r: Option<Price>)
        ensures
            r == self.best(Side::Bid),
    {
        if self.bids.len() == 0 {
            None
        } else {
            Some(self.bids[0].price)
        }
    }

    /// The lowest ask.
    pub fn best_ask(&self) -> (r: Option<Price>)
        ensures
            r == self.best(Side::Ask),
    {
        if self.asks.len() == 0 {
            None
        } else {
            Some(self.asks[0].price)
        }
    }

    /// The point halfway between the best prices; `None` where a side is empty.
    pub fn checked_mid(&self) -> (r: Result<Option<Price>, Overflow>)
        ensures
            r == self.mid_outcome(),
            r matches Ok(Some(mid)) ==> num::midpoint_keeps_order(
                self.bids@[0].price.0,
                self.asks@[0].price.0,
                Ok(mid.0),
            ),
    {
        match (self.best_bid(), self.best_ask()) {
            (Some(bid), Some(ask)) => {
                let mid = num::checked_midpoint(bid.0, ask.0)?;
                Ok(Some(Price(mid)))
            },
            _ => Ok(None),
        }
    }

    /// The point halfway between the best prices; `None` where a side is empty.
    pub fn mid(&self) -> (r: Option<Price>)
        requires
            self.mid_outcome() is Ok,
        ensures
            self.mid_outcome() == Ok::<Option<Price>, Overflow>(r),
    {
        match self.checked_mid() {
            Ok(mid) => mid,
            Err(_) => None,
        }
    }

    /// The best ask less the best bid, in basis points of the point halfway; `None` where a side is
    /// empty or that point is zero.
    pub fn checked_spread_bps(&self) -> (r: Result<Option<Decimal>, Overflow>)
        ensures
            r == self.spread_bps_outcome(),
    {
        let mid = self.checked_mid()?;
        match (self.best_bid(), self.best_ask(), mid) {
            (Some(bid), Some(ask), Some(mid)) => {
                if mid.0.is_zero() {
                    return Ok(None);
                }
                let bps = num::checked_difference_bps(ask.0, bid.0, mid.0)?;
                Ok(Some(bps))
            },
            _ => Ok(None),
        }
    }

    /// The best ask less the best bid, in basis points of the point halfway; `None` where a side is
    /// empty or that point is zero.
    pub fn spread_bps(&self) -> (r: Option<Decimal>)
        requires
            self.spread_bps_outcome() is Ok,
        ensures
            self.spread_bps_outcome() == Ok::<Option<Decimal>, Overflow>(r),
    {
        match self.checked_spread_bps() {
            Ok(bps) => bps,
            Err(_) => None,
        }
    }

    /// The levels of `side`, the best first.
    pub fn levels(&self, side: Side) -> (r: &Vec<Level>)
        ensures
            r@ == self.side_levels(side),
    {
        match side {
            Side::Bid => &self.bids,
            Side::Ask => &self.asks,
        }
    }

    /// The average price of an order for `size` that eats into `side`; `None` where `size` is not
    /// positive or the side does not hold enough.
    pub fn checked_vwap_for_size(&self, side: Side, size: Quantity) -> (r: Result<
        Option<Price>,
        Overflow,
    >)
        ensures
            r == vwap(self.side_levels(side), size.0),
            r matches Ok(Some(price)) ==> (liquidity::fills_exactly(
                side,
                self.side_levels(side),
                size.0,
            ) ==> liquidity::no_better_than_best(side, self.side_levels(side), price.0)),
    {
        if !size.is_positive() {
            return Ok(None);
        }
        let levels = self.levels(side);
        let n: usize = levels.len();
        let zero = Decimal::zero();
        let mut remaining = size.0;
        let mut cost = zero;
        let mut i: usize = 0;
        proof {
            assert(levels@.subrange(0, n as int) =~= levels@);
        }
        while i < n && zero.is_less(remaining)
            invariant
                i <= n,
                n == levels@.len(),
                levels@ == self.side_levels(side),
                zero.units() == 0,
                eaten(levels@, size.0, Decimal::whole(0)) == eaten(
                    levels@.subrange(i as int, n as int),
                    remaining,
                    cost,
                ),
                vwap(self.side_levels(side), size.0) is Err <== eaten(
                    levels@,
                    size.0,
                    Decimal::whole(0),
                ) is Err,
            ensures
                i == n || remaining.units() <= 0,
            decreases n - i,
        {
            proof {
                let here = levels@.subrange(i as int, n as int);
                assert(here[0] == levels@[i as int]);
                assert(here.subrange(1, here.len() as int) =~= levels@.subrange(i + 1, n as int));
            }
            let level = levels[i];
            if level.quantity.is_positive() {
                let take = if level.quantity.0.is_less(remaining) {
                    level.quantity.0
                } else {
                    remaining
                };
                let paid = take.checked_mul(level.price.0)?;
                cost = cost.checked_add(paid)?;
                remaining = remaining.checked_sub(take)?;
            }
            i += 1;
        }
        if zero.is_less(remaining) {
            return Ok(None);
        }
        let price = cost.checked_div(size.0)?;
        proof {
            if liquidity::fills_exactly(side, levels@, size.0) {
                liquidity::lemma_average_is_no_better(
                    side,
                    levels@,
                    size.0,
                    remaining,
                    cost,
                    price,
                );
            }
        }
        Ok(Some(Price(price)))
    }

    /// The average price of an order for `size` that eats into `side`; `None` where `size` is not
    /// positive or the side does not hold enough.
    pub fn vwap_for_size(&self, side: Side, size: Quantity) -> (r: Option<Price>)
        requires
            vwap(self.side_levels(side), size.0) is Ok,
        ensures
            vwap(self.side_levels(side), size.0) == Ok::<Option<Price>, Overflow>(r),
            r matches Some(price) ==> (liquidity::fills_exactly(
                side,
                self.side_levels(side),
                size.0,
            ) ==> liquidity::no_better_than_best(side, self.side_levels(side), price.0)),
    {
        match self.checked_vwap_for_size(side, size) {
            Ok(price) => price,
            Err(_) => None,
        }
    }

    /// The quantity that can be had from `side` within `max_slippage_bps` basis points of its best
    /// price; zero where the side is empty. More basis points never give less.
    pub fn checked_max_size_within_slippage(&self, side: Side, max_slippage_bps: u32) -> (r: Result<
        Quantity,
        Overflow,
    >)
        ensures
            r == depth_within(self.side_levels(side), side, max_slippage_bps),
            wider_is_deeper(self.side_levels(side), side, max_slippage_bps, r),
    {
        let levels = self.levels(side);
        let n: usize = levels.len();
        if n == 0 {
            return Ok(Quantity::zero());
        }
        let best = levels[0].price.0;
        let ratio = Decimal::from_u64(max_slippage_bps as u64).checked_div(num::bps_denominator())?;
        let one = Decimal::from_u64(1);
        let factor = match side {
            Side::Ask => one.checked_add(ratio)?,
            Side::Bid => one.checked_sub(ratio)?,
        };
        proof {
            liquidity::lemma_factor(side, ratio, factor, max_slippage_bps);
        }
        let bound = best.checked_mul(factor)?;
        let mut total = Decimal::zero();
        let mut i: usize = 0;
        let mut open = true;
        proof {
            assert(levels@.subrange(0, n as int) =~= levels@);
            assert(levels@.skip(0) =~= levels@);
            assert(levels@.take(0) =~= Seq::<Level>::empty());
        }
        while i < n && open
            invariant
                i <= n,
                0 < n,
                n == levels@.len(),
                levels@ == self.side_levels(side),
                slippage_bound(side, levels@[0].price.0, max_slippage_bps) == Ok::<
                    Decimal,
                    Overflow,
                >(bound),
                open ==> size_within(levels@, side, bound, Decimal::whole(0)) == size_within(
                    levels@.subrange(i as int, n as int),
                    side,
                    bound,
                    total,
                ),
                !open ==> size_within(levels@, side, bound, Decimal::whole(0)) == Ok::<
                    Decimal,
                    Overflow,
                >(total),
                liquidity::added(levels@.take(i as int)) == Ok::<Decimal, Overflow>(total),
                forall|j: int|
                    0 <= j <= i ==> (#[trigger] liquidity::added(levels@.take(j)) matches Ok(part)
                        && part.units() <= total.units()),
                liquidity::count_within(levels@, side, bound) == i + if open {
                    liquidity::count_within(levels@.skip(i as int), side, bound)
                } else {
                    0
                },
            decreases n - i + if open { 1int } else { 0 },
        {
            proof {
                let here = levels@.subrange(i as int, n as int);
                assert(here[0] == levels@[i as int]);
                assert(here.subrange(1, here.len() as int) =~= levels@.subrange(i + 1, n as int));
                assert(levels@.skip(i as int) =~= here);
                assert(levels@.skip(i as int).skip(1) =~= levels@.skip(i + 1));
                assert(levels@.take(i + 1).drop_last() =~= levels@.take(i as int));
                assert(levels@.take(i + 1).last() == levels@[i as int]);
            }
            let level = levels[i];
            let inside = match side {
                Side::Ask => !bound.is_less(level.price.0),
                Side::Bid => !level.price.0.is_less(bound),
            };
            if inside {
                if level.quantity.is_positive() {
                    let more = total.checked_add(level.quantity.0)?;
                    proof {
                        use_type_invariant(&total);
                        liquidity::lemma_more_is_no_less(total, level.quantity.0, more);
                    }
                    total = more;
                }
                i += 1;
            } else {
                open = false;
            }
        }
        proof {
            use_type_invariant(&best);
            assert(factor == liquidity::factor_of(side, max_slippage_bps));
            assert(open ==> levels@.skip(i as int) =~= Seq::<Level>::empty());
            assert forall|fewer: u32| fewer <= max_slippage_bps && best.units()
                >= 0 implies match #[trigger] depth_within(levels@, side, fewer) {
                Ok(less) => less.0.units() <= total.units(),
                Err(_) => true,
            } by {
                liquidity::lemma_fewer_give_no_more(
                    levels@,
                    side,
                    fewer,
                    max_slippage_bps,
                    bound,
                    total,
                );
            }
        }
        Ok(Quantity(total))
    }

    /// The quantity that can be had from `side` within `max_slippage_bps` basis points of its best
    /// price; zero where the side is empty.
    pub fn max_size_within_slippage(&self, side: Side, max_slippage_bps: u32) -> (r: Quantity)
        requires
            depth_within(self.side_levels(side), side, max_slippage_bps) is Ok,
        ensures
            depth_within(self.side_levels(side), side, max_slippage_bps) == Ok::<
                Quantity,
                Overflow,
            >(r),
            wider_is_deeper(self.side_levels(side), side, max_slippage_bps, Ok(r)),
    {
        match self.checked_max_size_within_slippage(side, max_slippage_bps) {
            Ok(size) => size,
            Err(_) => Quantity::zero(),
        }
    }

    /// How far the average price of an order for `size` that eats into `side` is worse than the
    /// best price, in basis points of it: never below zero where a decimal can hold the numbers on
    /// the way.
    pub fn checked_slippage_bps_for_size(&self, side: Side, size: Quantity) -> (r: Result<
        Option<Decimal>,
        Overflow,
    >)
        ensures
            r == self.slippage_bps_outcome(side, size),
            r matches Ok(Some(bps)) ==> (liquidity::fills_exactly(
                side,
                self.side_levels(side),
                size.0,
            ) && self.side_levels(side)[0].price.0.units() > 0 ==> bps.units() >= 0),
    {
        let best = match side {
            Side::Bid => self.best_bid(),
            Side::Ask => self.best_ask(),
        };
        let best = match best {
            Some(best) => best,
            None => return Ok(None),
        };
        if best.0.is_zero() {
            return Ok(None);
        }
        let price = match self.checked_vwap_for_size(side, size)? {
            Some(price) => price,
            None => return Ok(None),
        };
        let bps = match side {
            Side::Bid => num::checked_difference_bps(best.0, price.0, best.0)?,
            Side::Ask => num::checked_difference_bps(price.0, best.0, best.0)?,
        };
        Ok(Some(bps))
    }

    /// How far the average price of an order for `size` that eats into `side` is worse than the
    /// best price, in basis points of it: never below zero where a decimal can hold the numbers on
    /// the way.
    pub fn slippage_bps_for_size(&self, side: Side, size: Quantity) -> (r: Option<Decimal>)
        requires
            self.slippage_bps_outcome(side, size) is Ok,
        ensures
            self.slippage_bps_outcome(side, size) == Ok::<Option<Decimal>, Overflow>(r),
            r matches Some(bps) ==> (liquidity::fills_exactly(
                side,
                self.side_levels(side),
                size.0,
            ) && self.side_levels(side)[0].price.0.units() > 0 ==> bps.units() >= 0),
    {
        match self.checked_slippage_bps_for_size(side, size) {
            Ok(bps) => bps,
            Err(_) => None,
        }
    }

    /// Whether the best bid is not below the best ask. On most venues a sign of broken data, on
    /// dYdX a normal state.
    pub fn is_crossed(&self) -> (r: bool)
        ensures
            r == self.crossed(),
            r == self@.crossed(),
    {
        match (self.best_bid(), self.best_ask()) {
            (Some(bid), Some(ask)) => !bid.0.is_less(ask.0),
            _ => false,
        }
    }

    /// Checks the book, a crossing among the faults.
    pub fn validate(&self) -> (r: Result<(), BookIntegrityError>)
        ensures
            r == match self.fault() {
                Some(e) => Err(e),
                None => Ok(()),
            },
    {
        match self.validate_allowing_crossed() {
            Ok(()) => {},
            Err(e) => return Err(e),
        }
        match (self.best_bid(), self.best_ask()) {
            (Some(best_bid), Some(best_ask)) => {
                if !best_bid.0.is_less(best_ask.0) {
                    return Err(BookIntegrityError::Crossed { best_bid, best_ask });
                }
            },
            _ => {},
        }
        Ok(())
    }

    /// Checks the order of the levels and their quantities. A crossed book passes: how often books
    /// cross is itself measured, so such a book must not be thrown away.
    pub fn validate_allowing_crossed(&self) -> (r: Result<(), BookIntegrityError>)
        ensures
            r == match self.fault_but_crossing() {
                Some(e) => Err(e),
                None => Ok(()),
            },
    {
        if !is_sorted(&self.bids, true) {
            return Err(BookIntegrityError::BidsNotDescending);
        }
        if !is_sorted(&self.asks, false) {
            return Err(BookIntegrityError::AsksNotAscending);
        }
        if !is_all_positive(&self.bids) || !is_all_positive(&self.asks) {
            return Err(BookIntegrityError::NonPositiveQuantity);
        }
        Ok(())
    }
}

impl BookIntegrityError {
    /// The error in words.
    pub fn message(&self) -> (r: String)
        ensures
            r@ == match *self {
                BookIntegrityError::BidsNotDescending => "bids が降順でない"@,
                BookIntegrityError::AsksNotAscending => "asks が昇順でない"@,
                BookIntegrityError::Crossed { best_bid, best_ask } => "板がクロス: best_bid="@
                    + decimal::decimal_text(best_bid.0) + " >= best_ask="@ + decimal::decimal_text(
                    best_ask.0,
                ),
                BookIntegrityError::NonPositiveQuantity => "数量が 0 以下のレベルが存在"@,
            },
    {
        match self {
            BookIntegrityError::BidsNotDescending => "bids が降順でない".to_owned(),
            BookIntegrityError::AsksNotAscending => "asks が昇順でない".to_owned(),
            BookIntegrityError::Crossed { best_bid, best_ask } => {
                let mut out = "板がクロス: best_bid=".to_owned();
                out.append(best_bid.0.to_text().as_str());
                out.append(" >= best_ask=");
                out.append(best_ask.0.to_text().as_str());
                out
            },
            BookIntegrityError::NonPositiveQuantity => "数量が 0 以下のレベルが存在".to_owned(),
        }
    }
}

/// Where decimals can hold the numbers, the mid price lies exactly halfway between the best prices,
/// and the spread is exactly the best ask less the best bid in basis points of it. Without two sides
/// there is neither.
pub proof fn law_mid_and_spread_are_those_of_the_best_prices(
    book: OrderBook,
    mid: Decimal,
    bps: Decimal,
)
    ensures
        book.bids@.len() == 0 || book.asks@.len() == 0 ==> book.mid_outcome() == Ok::<
            Option<Price>,
            Overflow,
        >(None) && book.spread_bps_outcome() == Ok::<Option<Decimal>, Overflow>(None),
        book.bids@.len() > 0 && book.asks@.len() > 0 ==> {
            let (bid, ask) = (book.bids@[0].price.0.units(), book.asks@[0].price.0.units());
            decimal::expressible(bid + ask) && mid.valid() && 2 * mid.units() == bid + ask ==> {
                &&& book.mid_outcome() == Ok::<Option<Price>, Overflow>(Some(Price(mid)))
                &&& mid.units() == 0 ==> book.spread_bps_outcome() == Ok::<
                    Option<Decimal>,
                    Overflow,
                >(None)
                &&& mid.units() != 0 && num::is_bps_of(ask - bid, mid, bps)
                    ==> book.spread_bps_outcome() == Ok::<Option<Decimal>, Overflow>(Some(bps))
                    && bps.units() * mid.units() == 10000 * (ask - bid) * decimal::pow10(28)
            }
        },
{
    if book.bids@.len() > 0 && book.asks@.len() > 0 {
        let (bid, ask) = (book.bids@[0].price.0, book.asks@[0].price.0);
        if decimal::expressible(bid.units() + ask.units()) && mid.valid() && 2 * mid.units()
            == bid.units() + ask.units() {
            num::law_midpoint_lies_halfway(bid, ask, mid);
            if mid.units() != 0 && num::is_bps_of(ask.units() - bid.units(), mid, bps) {
                num::law_difference_in_bps_is_exact(ask, bid, mid, bps);
            }
        }
    }
}

/// The best price of a side is no worse than any price on it, where the side is in order.
pub proof fn law_best_price_is_the_best(book: OrderBook, i: int)
    requires
        book.fault_but_crossing() is None,
    ensures
        0 <= i < book.bids@.len() ==> (book.best(Side::Bid) matches Some(best) && best.0.units()
            >= book.bids@[i].price.0.units()),
        0 <= i < book.asks@.len() ==> (book.best(Side::Ask) matches Some(best) && best.0.units()
            <= book.asks@[i].price.0.units()),
        book.best(Side::Bid) is None <==> book.bids@.len() == 0,
        book.best(Side::Ask) is None <==> book.asks@.len() == 0,
{
}

/// A book is without fault exactly where its bids fall, its asks rise, every quantity is positive and
/// every bid is below every ask.
pub proof fn law_faultless_books_do_not_cross(book: OrderBook)
    ensures
        book.fault() is None <==> {
            &&& forall|i: int, j: int|
                0 <= i <= j < book.bids@.len() ==> (#[trigger] book.bids@[i]).price.0.units() >= (
                #[trigger] book.bids@[j]).price.0.units()
            &&& forall|i: int, j: int|
                0 <= i <= j < book.asks@.len() ==> (#[trigger] book.asks@[i]).price.0.units() <= (
                #[trigger] book.asks@[j]).price.0.units()
            &&& forall|i: int|
                0 <= i < book.bids@.len() ==> (#[trigger] book.bids@[i]).quantity.0.units() > 0
            &&& forall|i: int|
                0 <= i < book.asks@.len() ==> (#[trigger] book.asks@[i]).quantity.0.units() > 0
            &&& forall|i: int, j: int|
                0 <= i < book.bids@.len() && 0 <= j < book.asks@.len() ==> (
                #[trigger] book.bids@[i]).price.0.units() < (
                #[trigger] book.asks@[j]).price.0.units()
        },
{
}

/// Whether the first of `bids` is not below the first of `asks`.
pub open spec fn overlap(bids: Seq<Level>, asks: Seq<Level>) -> bool {
    bids.len() > 0 && asks.len() > 0 && bids[0].price.0.units() >= asks[0].price.0.units()
}

/// A book is crossed exactly where its best bid is not below its best ask, however it is looked at.
pub proof fn law_crossed_books_overlap(book: OrderBook)
    ensures
        book.crossed() == overlap(book.bids@, book.asks@),
        book@.crossed() == overlap(book.bids@, book.asks@),
{
}

/// Which fault is reported where there are several: bids that rise come first, then asks that fall,
/// then a quantity that is not positive. A crossing comes last, with the two prices that cross, and is
/// the only fault that can be left aside.
pub proof fn law_first_fault_is_reported(book: OrderBook, i: int, j: int)
    ensures
        0 <= i <= j < book.bids@.len() && book.bids@[i].price.0.units()
            < book.bids@[j].price.0.units() ==> book.fault() == Some(
            BookIntegrityError::BidsNotDescending,
        ),
        descending(book.bids@) && 0 <= i <= j < book.asks@.len() && book.asks@[i].price.0.units()
            > book.asks@[j].price.0.units() ==> book.fault() == Some(
            BookIntegrityError::AsksNotAscending,
        ),
        descending(book.bids@) && ascending(book.asks@) && (0 <= i < book.bids@.len()
            && book.bids@[i].quantity.0.units() <= 0 || 0 <= j < book.asks@.len()
            && book.asks@[j].quantity.0.units() <= 0) ==> book.fault() == Some(
            BookIntegrityError::NonPositiveQuantity,
        ),
        book.fault() matches Some(BookIntegrityError::Crossed { best_bid, best_ask }) ==> overlap(
            book.bids@,
            book.asks@,
        ) && best_bid == book.bids@[0].price && best_ask == book.asks@[0].price,
        book.fault_but_crossing() == match book.fault() {
            Some(BookIntegrityError::Crossed { .. }) => None,
            other => other,
        },
{
}

} // verus!
