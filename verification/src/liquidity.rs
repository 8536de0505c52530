//! What holds of orders that eat into a side of a book.

use vstd::prelude::*;

use crate::book;
use crate::book::{Level, Side};
use crate::decimal;
use crate::decimal::{Decimal, Overflow};
use crate::num;

verus! {

/// Whether the best level stands first.
pub open spec fn sorted(side: Side, levels: Seq<Level>) -> bool {
    match side {
        Side::Bid => book::descending(levels),
        Side::Ask => book::ascending(levels),
    }
}

/// How many levels there are before the first one whose price is worse than `bound`.
pub open spec fn count_within(levels: Seq<Level>, side: Side, bound: Decimal) -> nat
    decreases levels.len(),
{
    if levels.len() == 0 || !book::within(side, levels[0].price.0, bound) {
        0
    } else {
        1 + count_within(levels.skip(1), side, bound)
    }
}

/// The positive quantities of `levels`, added up from the first on.
pub open spec fn added(levels: Seq<Level>) -> Result<Decimal, Overflow>
    decreases levels.len(),
{
    if levels.len() == 0 {
        Ok(Decimal::whole(0))
    } else {
        match added(levels.drop_last()) {
            Ok(total) => if levels.last().quantity.0.units() <= 0 {
                Ok(total)
            } else {
                decimal::sum_of(total, levels.last().quantity.0)
            },
            Err(e) => Err(e),
        }
    }
}

/// Where the levels up to `i` add up to `total`, going on from there gives the sum of all levels
/// before the first that is worse than `bound`.
pub proof fn lemma_size_is_added(
    levels: Seq<Level>,
    side: Side,
    bound: Decimal,
    i: int,
    total: Decimal,
)
    requires
        0 <= i <= levels.len(),
        added(levels.take(i)) == Ok::<Decimal, Overflow>(total),
    ensures
        book::size_within(levels.skip(i), side, bound, total) == added(
            levels.take(i + count_within(levels.skip(i), side, bound)),
        ),
    decreases levels.len() - i,
{
    let here = levels.skip(i);
    if here.len() > 0 && book::within(side, here[0].price.0, bound) {
        let next = levels.take(i + 1);
        assert(next.drop_last() =~= levels.take(i));
        assert(next.last() == here[0]);
        assert(here.subrange(1, here.len() as int) =~= levels.skip(i + 1));
        assert(here.skip(1) =~= levels.skip(i + 1));
        match added(next) {
            Ok(more) => lemma_size_is_added(levels, side, bound, i + 1, more),
            Err(e) => {
                assert(e == Overflow);
                let end = i + 1 + count_within(levels.skip(i + 1), side, bound);
                lemma_wider_bound_takes_more(levels.skip(i + 1), side, bound, bound);
                lemma_overflow_stays(levels, i + 1, end);
                assert(book::size_within(here, side, bound, total) == Err::<Decimal, Overflow>(
                    Overflow,
                ));
            },
        }
    }
}

proof fn lemma_overflow_stays(levels: Seq<Level>, i: int, j: int)
    requires
        0 <= i <= j <= levels.len(),
        added(levels.take(i)) == Err::<Decimal, Overflow>(Overflow),
    ensures
        added(levels.take(j)) == Err::<Decimal, Overflow>(Overflow),
    decreases j - i,
{
    if i < j {
        lemma_overflow_stays(levels, i, j - 1);
        assert(levels.take(j).drop_last() =~= levels.take(j - 1));
    }
}

/// Where every price within `narrow` is within `wide`, no fewer levels are within `wide`.
pub proof fn lemma_wider_bound_takes_more(
    levels: Seq<Level>,
    side: Side,
    narrow: Decimal,
    wide: Decimal,
)
    requires
        match side {
            Side::Ask => narrow.units() <= wide.units(),
            Side::Bid => narrow.units() >= wide.units(),
        },
    ensures
        count_within(levels, side, narrow) <= count_within(levels, side, wide) <= levels.len(),
    decreases levels.len(),
{
    if levels.len() > 0 {
        lemma_wider_bound_takes_more(levels.skip(1), side, narrow, wide);
    }
}

/// What is measured in basis points of one, in units.
pub open spec fn bps_units(bps: int) -> int {
    bps * decimal::pow10(24)
}

/// One more than the basis points, or one less, as a decimal.
pub open spec fn factor_of(side: Side, bps: u32) -> Decimal {
    match side {
        Side::Ask => decimal::from_units(bps_units(10000 + bps)),
        Side::Bid => decimal::from_units(bps_units(10000 - bps)),
    }
}

proof fn lemma_pow10_parts()
    ensures
        decimal::pow10(28) == 10000 * decimal::pow10(24),
        decimal::pow10(24) > 0,
        decimal::pow10(4) == 10000,
{
    decimal::lemma_pow10_add(4, 24);
    decimal::lemma_pow10_positive(24);
    reveal_with_fuel(decimal::pow10, 5);
}

proof fn lemma_bps_expressible(n: int)
    requires
        -decimal::max_whole() <= n <= decimal::max_whole(),
    ensures
        decimal::expressible(bps_units(n)),
        decimal::from_units(bps_units(n)).valid(),
        decimal::from_units(bps_units(n)).units() == bps_units(n),
{
    decimal::lemma_expressible(n, 4);
    let d = decimal::from_units(bps_units(n));
    assert(d.valid() && d.units() == bps_units(n));
}

/// The factor that is worked out step by step is the exact one.
pub proof fn lemma_factor(side: Side, ratio: Decimal, factor: Decimal, bps: u32)
    requires
        decimal::quotient_of(Decimal::whole(bps as int), num::bps_per_one()) == Ok::<
            Decimal,
            Overflow,
        >(ratio),
        Ok::<Decimal, Overflow>(factor) == match side {
            Side::Ask => decimal::sum_of(Decimal::whole(1), ratio),
            Side::Bid => decimal::difference_of(Decimal::whole(1), ratio),
        },
    ensures
        factor == factor_of(side, bps),
{
    lemma_exact_steps(bps);
}

/// The bound is the product of the best price and the factor that goes with the basis points.
pub proof fn lemma_slippage_bound(side: Side, best: Decimal, bps: u32)
    ensures
        book::slippage_bound(side, best, bps) == decimal::product_of(best, factor_of(side, bps)),
        factor_of(side, bps).valid(),
        factor_of(side, bps).units() == match side {
            Side::Ask => bps_units(10000 + bps),
            Side::Bid => bps_units(10000 - bps),
        },
{
    lemma_exact_steps(bps);
}

proof fn lemma_exact_steps(bps: u32)
    ensures
        ({
            let ratio = decimal::from_units(bps_units(bps as int));
            &&& decimal::quotient_of(Decimal::whole(bps as int), num::bps_per_one()) == Ok::<
                Decimal,
                Overflow,
            >(ratio)
            &&& decimal::sum_of(Decimal::whole(1), ratio) == Ok::<Decimal, Overflow>(
                factor_of(Side::Ask, bps),
            )
            &&& decimal::difference_of(Decimal::whole(1), ratio) == Ok::<Decimal, Overflow>(
                factor_of(Side::Bid, bps),
            )
        }),
        factor_of(Side::Ask, bps).valid(),
        factor_of(Side::Bid, bps).valid(),
        factor_of(Side::Ask, bps).units() == bps_units(10000 + bps),
        factor_of(Side::Bid, bps).units() == bps_units(10000 - bps),
{
    let part = Decimal::whole(bps as int);
    let base = num::bps_per_one();
    let one = Decimal::whole(1);
    let ratio = decimal::from_units(bps_units(bps as int));
    lemma_pow10_parts();
    decimal::lemma_decimal_fields(part, bps as int);
    decimal::lemma_decimal_fields(part, 10000);
    decimal::lemma_decimal_fields(part, 1);
    lemma_bps_expressible(bps as int);
    lemma_bps_expressible(10000 + bps);
    lemma_bps_expressible(10000 - bps);
    let p = decimal::pow10(24);
    let t = decimal::pow10(28);
    assert(decimal::is_quotient(part, base, ratio)) by {
        assert((bps as int * p) * (10000 * t) == (bps as int * t) * t) by (nonlinear_arith)
            requires
                t == 10000 * p,
        ;
        assert(10000 * t != 0);
    }
    let q = choose|q: Decimal| decimal::is_quotient(part, base, q);
    decimal::lemma_quotient_unique(part, base, ratio, q);
    assert(decimal::quotient_of(part, base) == Ok::<Decimal, Overflow>(ratio)) by {
        reveal(decimal::quotient_of);
    }
    assert(bps_units(10000 + bps) == one.units() + ratio.units()) by (nonlinear_arith)
        requires
            one.units() == 1 * t,
            ratio.units() == bps as int * p,
            t == 10000 * p,
            bps_units(10000 + bps) == (10000 + bps) * p,
    ;
    assert(bps_units(10000 - bps) == one.units() - ratio.units()) by (nonlinear_arith)
        requires
            one.units() == 1 * t,
            ratio.units() == bps as int * p,
            t == 10000 * p,
            bps_units(10000 - bps) == (10000 - bps) * p,
    ;
    reveal(decimal::sum_of);
    reveal(decimal::difference_of);
}

/// What a positive quantity is added to does not become less.
pub proof fn lemma_more_is_no_less(total: Decimal, quantity: Decimal, more: Decimal)
    requires
        total.valid(),
        quantity.units() > 0,
        decimal::sum_keeps_order(total, quantity, Ok(more)),
    ensures
        total.units() <= more.units(),
{
    let zero = Decimal::whole(0);
    decimal::lemma_decimal_fields(zero, 0);
    decimal::lemma_from_units(total);
    assert(0 * decimal::pow10(28) == 0);
    assert(decimal::sum_of(total, zero) == Ok::<Decimal, Overflow>(total)) by {
        reveal(decimal::sum_of);
    }
    reveal(decimal::sum_keeps_order);
}

/// With fewer basis points the bound is no wider, so no more levels are within it, and these add up
/// to no more.
pub proof fn lemma_fewer_give_no_more(
    levels: Seq<Level>,
    side: Side,
    fewer: u32,
    bps: u32,
    bound: Decimal,
    total: Decimal,
)
    requires
        levels.len() > 0,
        levels[0].price.0.valid(),
        levels[0].price.0.units() >= 0,
        fewer <= bps,
        decimal::product_keeps_order(levels[0].price.0, factor_of(side, bps), Ok(bound)),
        forall|j: int|
            0 <= j <= count_within(levels, side, bound) ==> (#[trigger] added(
                levels.take(j),
            ) matches Ok(part) && part.units() <= total.units()),
    ensures
        match book::depth_within(levels, side, fewer) {
            Ok(less) => less.0.units() <= total.units(),
            Err(_) => true,
        },
{
    let best = levels[0].price.0;
    lemma_slippage_bound(side, best, fewer);
    lemma_slippage_bound(side, best, bps);
    lemma_pow10_parts();
    let (f, g) = (factor_of(side, fewer), factor_of(side, bps));
    let p = decimal::pow10(24);
    assert(side == Side::Ask ==> f.units() <= g.units()) by (nonlinear_arith)
        requires
            side == Side::Ask ==> f.units() == (10000 + fewer) * p && g.units() == (10000 + bps) * p,
            fewer <= bps,
            p > 0,
    ;
    assert(side == Side::Bid ==> f.units() >= g.units()) by (nonlinear_arith)
        requires
            side == Side::Bid ==> f.units() == (10000 - fewer) * p && g.units() == (10000 - bps) * p,
            fewer <= bps,
            p > 0,
    ;
    let (b, x, y) = (best.units(), f.units(), g.units());
    assert(x <= y ==> b * x <= b * y) by (nonlinear_arith)
        requires
            b >= 0,
    ;
    assert(x >= y ==> b * x >= b * y) by (nonlinear_arith)
        requires
            b >= 0,
    ;
    reveal(decimal::product_keeps_order);
    match decimal::product_of(best, f) {
        Ok(narrow) => {
            lemma_wider_bound_takes_more(levels, side, narrow, bound);
            assert(levels.skip(0) =~= levels);
            assert(levels.take(0) =~= Seq::<Level>::empty());
            lemma_size_is_added(levels, side, narrow, 0, Decimal::whole(0));
        },
        Err(_) => {},
    }
}

/// `total` and the positive quantities of all those of `levels` whose prices are no worse than `bound`.
pub open spec fn all_within(levels: Seq<Level>, side: Side, bound: Decimal, total: Decimal) -> Result<
    Decimal,
    Overflow,
>
    decreases levels.len(),
{
    if levels.len() == 0 {
        Ok(total)
    } else if !book::within(side, levels[0].price.0, bound) || levels[0].quantity.0.units() <= 0 {
        all_within(levels.skip(1), side, bound, total)
    } else {
        match decimal::sum_of(total, levels[0].quantity.0) {
            Ok(total) => all_within(levels.skip(1), side, bound, total),
            Err(e) => Err(e),
        }
    }
}

proof fn lemma_rest_is_sorted(side: Side, levels: Seq<Level>)
    requires
        sorted(side, levels),
        levels.len() > 0,
    ensures
        sorted(side, levels.skip(1)),
{
    let rest = levels.skip(1);
    assert forall|i: int| 0 <= i < rest.len() implies #[trigger] rest[i] == levels[i + 1] by {}
}

/// Where the best level stands first, stopping at the first level that is out of bounds leaves out no
/// level that is within them: the quantity is that of all levels within the bound, which counts as
/// within.
pub proof fn law_depth_counts_every_level_within(
    side: Side,
    levels: Seq<Level>,
    bound: Decimal,
    total: Decimal,
)
    requires
        sorted(side, levels),
    ensures
        book::size_within(levels, side, bound, total) == all_within(levels, side, bound, total),
    decreases levels.len(),
{
    if levels.len() > 0 {
        let rest = levels.skip(1);
        lemma_rest_is_sorted(side, levels);
        assert(levels.subrange(1, levels.len() as int) =~= rest);
        if !book::within(side, levels[0].price.0, bound) {
            lemma_nothing_within(side, levels, bound, total);
        } else if levels[0].quantity.0.units() <= 0 {
            law_depth_counts_every_level_within(side, rest, bound, total);
        } else {
            match decimal::sum_of(total, levels[0].quantity.0) {
                Ok(more) => law_depth_counts_every_level_within(side, rest, bound, more),
                Err(_) => {},
            }
        }
    }
}

proof fn lemma_nothing_within(side: Side, levels: Seq<Level>, bound: Decimal, total: Decimal)
    requires
        sorted(side, levels),
        levels.len() > 0 ==> !book::within(side, levels[0].price.0, bound),
    ensures
        all_within(levels, side, bound, total) == Ok::<Decimal, Overflow>(total),
    decreases levels.len(),
{
    if levels.len() > 0 {
        lemma_rest_is_sorted(side, levels);
        if levels.len() > 1 {
            assert(levels.skip(1)[0] == levels[1]);
            assert(levels[0] == levels[0]);
        }
        lemma_nothing_within(side, levels.skip(1), bound, total);
    }
}

/// Whether `price` is within `bps` basis points of `best`, worked out exactly; the bound counts as
/// within.
pub open spec fn within_bps(side: Side, price: Decimal, best: Decimal, bps: u32) -> bool {
    match side {
        Side::Ask => price.units() * 10000 <= best.units() * (10000 + bps),
        Side::Bid => price.units() * 10000 >= best.units() * (10000 - bps),
    }
}

/// Whether `bound` is exactly `bps` basis points from `best`.
pub open spec fn is_bound(side: Side, best: Decimal, bps: u32, bound: Decimal) -> bool {
    bound.valid() && bound.units() * 10000 == match side {
        Side::Ask => best.units() * (10000 + bps),
        Side::Bid => best.units() * (10000 - bps),
    }
}

/// The positive quantities of all those of `levels` that are within `bps` basis points of `best`,
/// added up exactly.
pub open spec fn units_within(levels: Seq<Level>, side: Side, best: Decimal, bps: u32) -> int
    decreases levels.len(),
{
    if levels.len() == 0 {
        0
    } else {
        units_within(levels.drop_last(), side, best, bps) + if within_bps(
            side,
            levels.last().price.0,
            best,
            bps,
        ) && levels.last().quantity.0.units() > 0 {
            levels.last().quantity.0.units()
        } else {
            0
        }
    }
}

/// Where the best level stands first, and a decimal can hold the bound and the sums on the way, the
/// quantity within `bps` basis points is exactly the sum of the positive quantities of all levels
/// within that distance of the best price.
pub proof fn law_depth_is_the_sum_within(side: Side, levels: Seq<Level>, bps: u32, bound: Decimal)
    requires
        levels.len() > 0,
        sorted(side, levels),
        is_bound(side, levels[0].price.0, bps, bound),
        forall|k: int|
            0 <= k <= levels.len() ==> decimal::expressible(
                #[trigger] units_within(levels.take(k), side, levels[0].price.0, bps),
            ),
    ensures
        book::depth_within(levels, side, bps) matches Ok(size) && size.0.units() == units_within(
            levels,
            side,
            levels[0].price.0,
            bps,
        ),
{
    let best = levels[0].price.0;
    lemma_bound_is_exact(side, best, bps, bound);
    let k = count_within(levels, side, bound) as int;
    lemma_wider_bound_takes_more(levels, side, bound, bound);
    assert(levels.skip(0) =~= levels);
    assert(levels.take(0) =~= Seq::<Level>::empty());
    lemma_size_is_added(levels, side, bound, 0, Decimal::whole(0));
    lemma_first_are_within(levels, side, bound);
    lemma_added_is_exact(levels, side, best, bps, bound, k);
    lemma_others_add_nothing(levels, side, best, bps, bound, levels.len() as int);
    assert(levels.take(levels.len() as int) =~= levels);
}

/// A bound that a decimal can hold is the one that is worked out, and prices are within it exactly
/// where they are within the basis points.
proof fn lemma_bound_is_exact(side: Side, best: Decimal, bps: u32, bound: Decimal)
    requires
        is_bound(side, best, bps, bound),
    ensures
        book::slippage_bound(side, best, bps) == Ok::<Decimal, Overflow>(bound),
        forall|price: Decimal|
            #[trigger] book::within(side, price, bound) <==> within_bps(side, price, best, bps),
{
    lemma_slippage_bound(side, best, bps);
    lemma_pow10_parts();
    let f = factor_of(side, bps);
    let p = decimal::pow10(24);
    let t = decimal::pow10(28);
    let n = match side {
        Side::Ask => 10000 + bps,
        Side::Bid => 10000 - bps,
    };
    assert(bound.units() * t == best.units() * f.units()) by (nonlinear_arith)
        requires
            bound.units() * 10000 == best.units() * n,
            f.units() == n * p,
            t == 10000 * p,
    ;
    assert(decimal::is_product(best, f, bound));
    let q = choose|q: Decimal| decimal::is_product(best, f, q);
    decimal::lemma_product_unique(best, f, bound, q);
    reveal(decimal::product_of);
}

proof fn lemma_first_are_within(levels: Seq<Level>, side: Side, bound: Decimal)
    ensures
        count_within(levels, side, bound) <= levels.len(),
        forall|i: int|
            0 <= i < count_within(levels, side, bound) ==> book::within(
                side,
                (#[trigger] levels[i]).price.0,
                bound,
            ),
        count_within(levels, side, bound) < levels.len() ==> !book::within(
            side,
            levels[count_within(levels, side, bound) as int].price.0,
            bound,
        ),
    decreases levels.len(),
{
    if levels.len() > 0 && book::within(side, levels[0].price.0, bound) {
        let rest = levels.skip(1);
        lemma_first_are_within(rest, side, bound);
        assert forall|i: int| 0 <= i < count_within(levels, side, bound) implies book::within(
            side,
            (#[trigger] levels[i]).price.0,
            bound,
        ) by {
            if i > 0 {
                assert(rest[i - 1] == levels[i]);
            }
        }
    }
}

proof fn lemma_added_is_exact(
    levels: Seq<Level>,
    side: Side,
    best: Decimal,
    bps: u32,
    bound: Decimal,
    k: int,
)
    requires
        0 <= k <= levels.len(),
        forall|price: Decimal|
            #[trigger] book::within(side, price, bound) <==> within_bps(side, price, best, bps),
        forall|i: int| 0 <= i < k ==> book::within(side, (#[trigger] levels[i]).price.0, bound),
        forall|i: int|
            0 <= i <= levels.len() ==> decimal::expressible(
                #[trigger] units_within(levels.take(i), side, best, bps),
            ),
    ensures
        added(levels.take(k)) matches Ok(total) && total.valid() && total.units() == units_within(
            levels.take(k),
            side,
            best,
            bps,
        ),
    decreases k,
{
    if k == 0 {
        let zero = Decimal::whole(0);
        decimal::lemma_decimal_fields(zero, 0);
        assert(0 * decimal::pow10(28) == 0);
    } else {
        lemma_added_is_exact(levels, side, best, bps, bound, k - 1);
        let here = levels.take(k);
        assert(here.drop_last() =~= levels.take(k - 1));
        assert(here.last() == levels[k - 1]);
        assert(book::within(side, levels[k - 1].price.0, bound));
        let sum = units_within(here, side, best, bps);
        assert(decimal::expressible(sum));
        let d = decimal::from_units(sum);
        assert(d.valid() && d.units() == sum);
        reveal(decimal::sum_of);
    }
}

proof fn lemma_others_add_nothing(
    levels: Seq<Level>,
    side: Side,
    best: Decimal,
    bps: u32,
    bound: Decimal,
    n: int,
)
    requires
        sorted(side, levels),
        count_within(levels, side, bound) <= n <= levels.len(),
        forall|price: Decimal|
            #[trigger] book::within(side, price, bound) <==> within_bps(side, price, best, bps),
    ensures
        units_within(levels.take(n), side, best, bps) == units_within(
            levels.take(count_within(levels, side, bound) as int),
            side,
            best,
            bps,
        ),
    decreases n,
{
    let k = count_within(levels, side, bound) as int;
    if n > k {
        lemma_others_add_nothing(levels, side, best, bps, bound, n - 1);
        lemma_first_are_within(levels, side, bound);
        let here = levels.take(n);
        assert(here.drop_last() =~= levels.take(n - 1));
        assert(here.last() == levels[n - 1]);
        assert(!book::within(side, levels[k].price.0, bound));
        assert(!book::within(side, levels[n - 1].price.0, bound));
    }
}

/// The quantity of a level, where it is positive.
pub open spec fn on_offer(level: Level) -> int {
    if level.quantity.0.units() > 0 {
        level.quantity.0.units()
    } else {
        0
    }
}

/// What all `levels` hold.
pub open spec fn held(levels: Seq<Level>) -> int
    decreases levels.len(),
{
    if levels.len() == 0 {
        0
    } else {
        on_offer(levels[0]) + held(levels.skip(1))
    }
}

/// How much of `size` is taken from `level`.
pub open spec fn taken_from(level: Level, size: int) -> int {
    if size < on_offer(level) {
        size
    } else {
        on_offer(level)
    }
}

/// What an order for `size` costs that eats into `levels` from the first on, worked out exactly.
pub open spec fn cost_from_first(levels: Seq<Level>, size: int) -> int
    decreases levels.len(),
{
    if levels.len() == 0 || size <= 0 {
        0
    } else {
        let take = taken_from(levels[0], size);
        take * levels[0].price.0.units() + cost_from_first(levels.skip(1), size - take)
    }
}

/// What is taken in all.
pub open spec fn amount(takes: Seq<int>) -> int
    decreases takes.len(),
{
    if takes.len() == 0 {
        0
    } else {
        takes[0] + amount(takes.skip(1))
    }
}

/// What it costs to take `takes` from `levels`, one of each.
pub open spec fn cost_of(levels: Seq<Level>, takes: Seq<int>) -> int
    decreases levels.len(),
{
    if levels.len() == 0 {
        0
    } else {
        takes[0] * levels[0].price.0.units() + cost_of(levels.skip(1), takes.skip(1))
    }
}

/// Whether `takes` fills an order for `size`: no level gives more than it has.
pub open spec fn is_fill(levels: Seq<Level>, takes: Seq<int>, size: int) -> bool {
    &&& takes.len() == levels.len()
    &&& forall|i: int| 0 <= i < takes.len() ==> 0 <= #[trigger] takes[i] <= on_offer(levels[i])
    &&& amount(takes) == size
}

/// Where the best level stands first, no way to fill an order is better than to eat into the levels
/// from the first on: none is cheaper for a purchase, and none brings in more for a sale.
pub proof fn law_eating_from_the_best_level_on_is_best(
    side: Side,
    levels: Seq<Level>,
    takes: Seq<int>,
    size: int,
)
    requires
        sorted(side, levels),
        is_fill(levels, takes, size),
    ensures
        match side {
            Side::Ask => cost_from_first(levels, size) <= cost_of(levels, takes),
            Side::Bid => cost_from_first(levels, size) >= cost_of(levels, takes),
        },
{
    lemma_no_fill_is_better(side, levels, takes, size);
}

/// 1 for a purchase, -1 for a sale: what is paid counts against the one, what comes in for the other.
spec fn sign(side: Side) -> int {
    match side {
        Side::Ask => 1,
        Side::Bid => -1,
    }
}

proof fn lemma_fill_rest(levels: Seq<Level>, takes: Seq<int>, size: int)
    requires
        is_fill(levels, takes, size),
        levels.len() > 0,
    ensures
        is_fill(levels.skip(1), takes.skip(1), size - takes[0]),
{
    let (rest, others) = (levels.skip(1), takes.skip(1));
    assert forall|i: int| 0 <= i < others.len() implies 0 <= #[trigger] others[i] <= on_offer(
        rest[i],
    ) by {
        assert(others[i] == takes[i + 1] && rest[i] == levels[i + 1]);
    }
}

proof fn lemma_fill_is_held(levels: Seq<Level>, takes: Seq<int>, size: int)
    requires
        is_fill(levels, takes, size),
    ensures
        0 <= size <= held(levels),
    decreases levels.len(),
{
    if levels.len() > 0 {
        lemma_fill_rest(levels, takes, size);
        lemma_fill_is_held(levels.skip(1), takes.skip(1), size - takes[0]);
        assert(0 <= takes[0] <= on_offer(levels[0]));
    }
}

proof fn lemma_no_fill_is_better(side: Side, levels: Seq<Level>, takes: Seq<int>, size: int)
    requires
        sorted(side, levels),
        is_fill(levels, takes, size),
    ensures
        sign(side) * cost_from_first(levels, size) <= sign(side) * cost_of(levels, takes),
    decreases levels.len(),
{
    lemma_fill_is_held(levels, takes, size);
    if levels.len() > 0 {
        let (rest, others) = (levels.skip(1), takes.skip(1));
        let (s, p) = (sign(side), levels[0].price.0.units());
        let (t, g) = (takes[0], taken_from(levels[0], size));
        assert(0 <= t <= on_offer(levels[0]));
        lemma_rest_is_sorted(side, levels);
        lemma_fill_rest(levels, takes, size);
        lemma_fill_is_held(rest, others, size - t);
        lemma_no_fill_is_better(side, rest, others, size - t);
        assert forall|i: int| 0 <= i < rest.len() implies s * p <= s * (
        #[trigger] rest[i]).price.0.units() by {
            assert(rest[i] == levels[i + 1]);
            assert(levels[0] == levels[0]);
        }
        lemma_more_costs_no_less(rest, size - g, g - t, s, s * p);
        lemma_cost_from_first(levels, size);
        let (x, y, z) = (
            cost_from_first(rest, size - g),
            cost_from_first(rest, size - t),
            cost_of(rest, others),
        );
        assert(s * (g * p + x) <= s * (t * p + z)) by (nonlinear_arith)
            requires
                s * y <= s * z,
                s * y >= s * x + (g - t) * (s * p),
        ;
    }
}

/// The cost of the first level and that of the rest make the whole.
proof fn lemma_cost_from_first(levels: Seq<Level>, size: int)
    requires
        levels.len() > 0,
        size >= 0,
    ensures
        cost_from_first(levels, size) == taken_from(levels[0], size) * levels[0].price.0.units()
            + cost_from_first(levels.skip(1), size - taken_from(levels[0], size)),
{
    if size == 0 {
        assert(taken_from(levels[0], 0) == 0);
        assert(0 * levels[0].price.0.units() == 0);
    }
}

proof fn lemma_held_is_not_negative(levels: Seq<Level>)
    ensures
        held(levels) >= 0,
    decreases levels.len(),
{
    if levels.len() > 0 {
        lemma_held_is_not_negative(levels.skip(1));
    }
}

/// What `more` costs besides `size` is at least `floor` a piece, where no price is below it.
proof fn lemma_more_costs_no_less(levels: Seq<Level>, size: int, more: int, s: int, floor: int)
    requires
        0 <= size,
        0 <= more,
        size + more <= held(levels),
        forall|i: int|
            0 <= i < levels.len() ==> floor <= s * (#[trigger] levels[i]).price.0.units(),
    ensures
        s * cost_from_first(levels, size + more) >= s * cost_from_first(levels, size) + more
            * floor,
    decreases levels.len(),
{
    if levels.len() == 0 {
        assert(0 * floor == 0);
    } else {
        let rest = levels.skip(1);
        let p = levels[0].price.0.units();
        let (a, b) = (taken_from(levels[0], size), taken_from(levels[0], size + more));
        lemma_held_is_not_negative(rest);
        lemma_cost_from_first(levels, size);
        lemma_cost_from_first(levels, size + more);
        assert forall|i: int| 0 <= i < rest.len() implies floor <= s * (
        #[trigger] rest[i]).price.0.units() by {
            assert(rest[i] == levels[i + 1]);
        }
        lemma_more_costs_no_less(rest, size - a, more - (b - a), s, floor);
        let (x, y) = (cost_from_first(rest, size - a), cost_from_first(rest, size + more - b));
        assert(floor <= s * levels[0].price.0.units());
        assert(s * (b * p + y) >= s * (a * p + x) + more * floor) by (nonlinear_arith)
            requires
                s * y >= s * x + (more - (b - a)) * floor,
                floor <= s * p,
                b >= a,
        ;
    }
}

/// Whether a decimal can hold every number on the way of an order that eats into `levels`.
pub open spec fn exact_on_the_way(levels: Seq<Level>, remaining: int, cost: int) -> bool
    decreases levels.len(),
{
    levels.len() == 0 || remaining <= 0 || {
        let take = taken_from(levels[0], remaining);
        let paid = take * levels[0].price.0.units();
        let t = decimal::pow10(28);
        &&& paid % t == 0
        &&& decimal::expressible(paid / t)
        &&& decimal::expressible(cost + paid / t)
        &&& decimal::expressible(remaining - take)
        &&& exact_on_the_way(levels.skip(1), remaining - take, cost + paid / t)
    }
}

/// Where a decimal can hold every number on the way, an order that eats into the levels costs exactly
/// what it costs to eat into them from the first on, and what is left of it is what they do not
/// hold.
pub proof fn law_cost_is_exact(levels: Seq<Level>, remaining: Decimal, cost: Decimal)
    requires
        remaining.valid(),
        cost.valid(),
        remaining.units() >= 0,
        exact_on_the_way(levels, remaining.units(), cost.units()),
    ensures
        book::eaten(levels, remaining, cost) matches Ok((left, total)) && {
            &&& left.valid() && total.valid()
            &&& left.units() == if remaining.units() > held(levels) {
                remaining.units() - held(levels)
            } else {
                0
            }
            &&& total.units() * decimal::pow10(28) == cost.units() * decimal::pow10(28)
                + cost_from_first(levels, remaining.units())
        },
    decreases levels.len(),
{
    lemma_held_is_not_negative(levels);
    if levels.len() > 0 && remaining.units() > 0 {
        let level = levels[0];
        let rest = levels.skip(1);
        assert(levels.subrange(1, levels.len() as int) =~= rest);
        lemma_held_is_not_negative(rest);
        let units = taken_from(level, remaining.units());
        let (p, t) = (level.price.0.units(), decimal::pow10(28));
        decimal::lemma_pow10_positive(28);
        if level.quantity.0.units() <= 0 {
            assert(0 * p == 0);
            assert(0int / t == 0) by (nonlinear_arith)
                requires
                    t > 0,
            ;
            law_cost_is_exact(rest, remaining, cost);
        } else {
            let take = book::lesser(remaining, level.quantity.0);
            assert(take.units() == units);
            let paid = decimal::from_units(units * p / t);
            assert(paid.valid() && paid.units() == units * p / t);
            assert(paid.units() * t == units * p) by (nonlinear_arith)
                requires
                    t > 0,
                    paid.units() == (units * p) / t,
                    (units * p) % t == 0,
            ;
            assert(decimal::is_product(take, level.price.0, paid));
            let q = choose|q: Decimal| decimal::is_product(take, level.price.0, q);
            decimal::lemma_product_unique(take, level.price.0, paid, q);
            let sum = decimal::from_units(cost.units() + paid.units());
            assert(sum.valid() && sum.units() == cost.units() + paid.units());
            let left = decimal::from_units(remaining.units() - units);
            assert(left.valid() && left.units() == remaining.units() - units);
            reveal(decimal::product_of);
            reveal(decimal::sum_of);
            reveal(decimal::difference_of);
            law_cost_is_exact(rest, left, sum);
            assert(sum.units() * t == cost.units() * t + units * p) by (nonlinear_arith)
                requires
                    sum.units() == cost.units() + paid.units(),
                    paid.units() * t == units * p,
            ;
        }
    }
}

/// Where a decimal can hold every number on the way, an order has an average price exactly where the
/// levels hold enough for it, and that is its cost from the first level on, divided by its size.
pub proof fn law_average_price_is_that_of_eating_from_the_first(levels: Seq<Level>, size: Decimal)
    requires
        size.valid(),
        size.units() > 0,
        exact_on_the_way(levels, size.units(), 0),
    ensures
        size.units() > held(levels) ==> book::vwap(levels, size) == Ok::<
            Option<num::Price>,
            Overflow,
        >(None),
        size.units() <= held(levels) ==> exists|total: Decimal|
            total.valid() && total.units() * decimal::pow10(28) == cost_from_first(
                levels,
                size.units(),
            ) && book::vwap(levels, size) == match #[trigger] decimal::quotient_of(total, size) {
                Ok(price) => Ok(Some(num::Price(price))),
                Err(e) => Err(e),
            },
{
    let zero = Decimal::whole(0);
    decimal::lemma_decimal_fields(zero, 0);
    assert(0 * decimal::pow10(28) == 0);
    law_cost_is_exact(levels, size, zero);
    if let Ok((left, total)) = book::eaten(levels, size, zero) {
        assert(total.units() * decimal::pow10(28) == cost_from_first(levels, size.units()));
    }
}

/// Whether the best level stands first and a decimal can hold every number on the way of an order
/// for `size` that eats into `levels`, as well as its cost at the best price alone.
pub open spec fn fills_exactly(side: Side, levels: Seq<Level>, size: Decimal) -> bool {
    &&& levels.len() > 0
    &&& levels[0].price.0.valid()
    &&& size.valid()
    &&& sorted(side, levels)
    &&& exact_on_the_way(levels, size.units(), 0)
    &&& exists|whole: Decimal| decimal::is_product(levels[0].price.0, size, whole)
}

/// Whether `price` is no better than the best one, for an order that eats into `side`.
pub open spec fn no_better_than_best(side: Side, levels: Seq<Level>, price: Decimal) -> bool {
    match side {
        Side::Ask => levels[0].price.0.units() <= price.units(),
        Side::Bid => levels[0].price.0.units() >= price.units(),
    }
}

/// An average price is no better than the best one, also where it is rounded.
pub proof fn lemma_average_is_no_better(
    side: Side,
    levels: Seq<Level>,
    size: Decimal,
    left: Decimal,
    cost: Decimal,
    price: Decimal,
)
    requires
        fills_exactly(side, levels, size),
        size.units() > 0,
        book::eaten(levels, size, Decimal::whole(0)) == Ok::<(Decimal, Decimal), Overflow>(
            (left, cost),
        ),
        left.units() <= 0,
        decimal::quotient_keeps_order(cost, size, Ok(price)),
    ensures
        no_better_than_best(side, levels, price),
{
    let zero = Decimal::whole(0);
    decimal::lemma_decimal_fields(zero, 0);
    assert(0 * decimal::pow10(28) == 0);
    law_cost_is_exact(levels, size, zero);
    let best = levels[0].price.0;
    let (s, p, n) = (sign(side), best.units(), size.units());
    let t = decimal::pow10(28);
    decimal::lemma_pow10_positive(28);
    assert forall|i: int| 0 <= i < levels.len() implies s * p <= s * (
    #[trigger] levels[i]).price.0.units() by {
        assert(levels[0] == levels[0]);
    }
    lemma_more_costs_no_less(levels, 0, n, s, s * p);
    let whole = choose|whole: Decimal| decimal::is_product(best, size, whole);
    let total = cost_from_first(levels, n);
    assert(s * whole.units() <= s * cost.units()) by (nonlinear_arith)
        requires
            s == 1 || s == -1,
            t > 0,
            whole.units() * t == p * n,
            cost.units() * t == total,
            s * total >= n * (s * p),
    ;
    assert(p * n == n * p) by (nonlinear_arith);
    assert(decimal::is_quotient(whole, size, best));
    let q = choose|q: Decimal| decimal::is_quotient(whole, size, q);
    decimal::lemma_quotient_unique(whole, size, best, q);
    reveal(decimal::quotient_of);
    reveal(decimal::quotient_keeps_order);
    assert(decimal::quotient_of(whole, size) == Ok::<Decimal, Overflow>(best));
}

/// Whether `price` is exactly the average price of an order for `size` that eats into `levels`, with
/// every number on the way a decimal: the size times it is what the order costs from the first level
/// on.
pub open spec fn is_average(levels: Seq<Level>, size: Decimal, price: Decimal) -> bool {
    &&& size.valid() && size.units() > 0
    &&& size.units() <= held(levels)
    &&& exact_on_the_way(levels, size.units(), 0)
    &&& price.valid()
    &&& price.units() * size.units() == cost_from_first(levels, size.units())
}

/// An average price that a decimal can hold is the one that is worked out.
pub proof fn law_average_price_is_exact(levels: Seq<Level>, size: Decimal, price: Decimal)
    requires
        is_average(levels, size, price),
    ensures
        book::vwap(levels, size) == Ok::<Option<num::Price>, Overflow>(Some(num::Price(price))),
{
    law_average_price_is_that_of_eating_from_the_first(levels, size);
    let total = choose|total: Decimal|
        total.valid() && total.units() * decimal::pow10(28) == cost_from_first(levels, size.units())
            && book::vwap(levels, size) == match #[trigger] decimal::quotient_of(total, size) {
            Ok(price) => Ok(Some(num::Price(price))),
            Err(e) => Err(e),
        };
    decimal::law_quotient_is_exact(total, size, price);
}

/// An order that the best level holds is filled there, at its price, where a decimal can hold its
/// cost.
pub proof fn law_small_order_is_filled_at_the_best_price(
    levels: Seq<Level>,
    size: Decimal,
    cost: Decimal,
)
    requires
        levels.len() > 0,
        size.valid(),
        0 < size.units() <= levels[0].quantity.0.units(),
        levels[0].price.0.valid(),
        decimal::is_product(size, levels[0].price.0, cost),
    ensures
        book::vwap(levels, size) == Ok::<Option<num::Price>, Overflow>(Some(levels[0].price)),
{
    let price = levels[0].price.0;
    let zero = Decimal::whole(0);
    let rest = levels.skip(1);
    let t = decimal::pow10(28);
    decimal::lemma_decimal_fields(zero, 0);
    decimal::lemma_pow10_positive(28);
    assert(0 * t == 0);
    let (n, p) = (size.units(), price.units());
    assert(cost.units() * t == n * p);
    assert((n * p) % t == 0 && (n * p) / t == cost.units()) by (nonlinear_arith)
        requires
            t > 0,
            cost.units() * t == n * p,
    ;
    decimal::lemma_from_units(cost);
    decimal::lemma_from_units(zero);
    lemma_held_is_not_negative(rest);
    assert(exact_on_the_way(rest, 0, cost.units()));
    assert(exact_on_the_way(levels, n, 0));
    assert(cost_from_first(rest, 0) == 0);
    assert(cost_from_first(levels, n) == n * p);
    assert(p * n == n * p) by (nonlinear_arith);
    law_average_price_is_exact(levels, size, price);
}

/// Where decimals can hold the numbers on the way, slippage is exactly how far the average price is
/// worse than the best one, in basis points of the best one.
pub proof fn law_slippage_is_exact(
    book: book::OrderBook,
    side: Side,
    size: num::Quantity,
    price: Decimal,
    bps: Decimal,
)
    requires
        is_average(book.side_levels(side), size.0, price),
        book.side_levels(side).len() > 0,
        book.side_levels(side)[0].price.0.units() != 0,
        ({
            let best = book.side_levels(side)[0].price.0;
            num::is_bps_of(
                match side {
                    Side::Bid => best.units() - price.units(),
                    Side::Ask => price.units() - best.units(),
                },
                best,
                bps,
            )
        }),
    ensures
        book.slippage_bps_outcome(side, size) == Ok::<Option<Decimal>, Overflow>(Some(bps)),
        ({
            let best = book.side_levels(side)[0].price.0;
            bps.units() * best.units() == 10000 * match side {
                Side::Bid => best.units() - price.units(),
                Side::Ask => price.units() - best.units(),
            } * decimal::pow10(28)
        }),
{
    let best = book.side_levels(side)[0].price.0;
    law_average_price_is_exact(book.side_levels(side), size.0, price);
    match side {
        Side::Bid => num::law_difference_in_bps_is_exact(best, price, best, bps),
        Side::Ask => num::law_difference_in_bps_is_exact(price, best, best, bps),
    }
}

} // verus!
