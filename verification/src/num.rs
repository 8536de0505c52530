//! Prices and quantities.

use vstd::prelude::*;

use crate::decimal;
use crate::decimal::{Decimal, Overflow};

verus! {

/// A price. Not to be confused with a [`Quantity`], hence a type of its own.
#[derive(Clone, Copy, Debug, PartialEq, Eq, Hash, Structural)]
pub struct Price(pub Decimal);

/// A quantity.
#[derive(Clone, Copy, Debug, PartialEq, Eq, Hash, Structural)]
pub struct Quantity(pub Decimal);

/// How many basis points make one.
pub open spec fn bps_per_one() -> Decimal {
    Decimal::whole(10000)
}

/// How many basis points make one.
pub fn bps_denominator() -> (r: Decimal)
    ensures
        r == bps_per_one(),
        r.num() == 10000,
        r.places() == 0,
{
    Decimal::from_u64(10000)
}

/// `part / base`, in basis points.
pub open spec fn ratio_bps(part: Decimal, base: Decimal) -> Result<Decimal, Overflow> {
    match decimal::quotient_of(part, base) {
        Ok(ratio) => decimal::product_of(ratio, bps_per_one()),
        Err(e) => Err(e),
    }
}

/// `a - b`, in basis points of `base`.
pub open spec fn difference_bps(a: Decimal, b: Decimal, base: Decimal) -> Result<
    Decimal,
    Overflow,
> {
    match decimal::difference_of(a, b) {
        Ok(difference) => ratio_bps(difference, base),
        Err(e) => Err(e),
    }
}

/// Half of `a + b`.
pub open spec fn midpoint(a: Decimal, b: Decimal) -> Result<Decimal, Overflow> {
    match decimal::sum_of(a, b) {
        Ok(sum) => decimal::quotient_of(sum, Decimal::whole(2)),
        Err(e) => Err(e),
    }
}

/// Whether rounding keeps `r` in order with other midpoints, `r` standing for that of `a` and `b`.
#[verifier::opaque]
pub open spec fn midpoint_keeps_order(a: Decimal, b: Decimal, r: Result<Decimal, Overflow>) -> bool {
    forall|c: Decimal, d: Decimal|
        c.valid() && d.valid() ==> {
            let other = #[trigger] midpoint(c, d);
            &&& c.units() + d.units() <= a.units() + b.units() ==> decimal::in_order(other, r)
            &&& c.units() + d.units() >= a.units() + b.units() ==> decimal::in_order(r, other)
        }
}

/// Whether rounding keeps `r` in order with other differences in basis points of `base`, where
/// `base` is above zero; `r` stands for that of `a` and `b`.
#[verifier::opaque]
pub open spec fn difference_bps_keeps_order(
    a: Decimal,
    b: Decimal,
    base: Decimal,
    r: Result<Decimal, Overflow>,
) -> bool {
    forall|c: Decimal, d: Decimal|
        c.valid() && d.valid() && base.units() > 0 ==> {
            let other = #[trigger] difference_bps(c, d, base);
            &&& c.units() - d.units() <= a.units() - b.units() ==> decimal::in_order(other, r)
            &&& c.units() - d.units() >= a.units() - b.units() ==> decimal::in_order(r, other)
        }
}

/// Whether rounding keeps `r` in order with other numbers in basis points of `base`, where `base` is
/// above zero; `r` stands for `part`.
#[verifier::opaque]
pub open spec fn ratio_bps_keeps_order(
    part: Decimal,
    base: Decimal,
    r: Result<Decimal, Overflow>,
) -> bool {
    forall|c: Decimal|
        c.valid() && base.units() > 0 ==> {
            let other = #[trigger] ratio_bps(c, base);
            &&& c.units() <= part.units() ==> decimal::in_order(other, r)
            &&& c.units() >= part.units() ==> decimal::in_order(r, other)
        }
}

/// `part / base`, in basis points.
pub fn checked_ratio_bps(part: Decimal, base: Decimal) -> (r: Result<Decimal, Overflow>)
    ensures
        r == ratio_bps(part, base),
        decimal::negated_outcome(r) == ratio_bps(part.negated(), base),
        r matches Ok(bps) ==> (part.units() * base.units() >= 0 ==> bps.units() >= 0),
        r matches Ok(bps) ==> (part.units() * base.units() <= 0 ==> bps.units() <= 0),
        ratio_bps_keeps_order(part, base, r),
{
    proof {
        reveal(ratio_bps_keeps_order);
        reveal(decimal::quotient_keeps_order);
        reveal(decimal::product_keeps_order);
    }
    let ratio = part.checked_div(base)?;
    let scale = bps_denominator();
    proof {
        decimal::lemma_decimal_fields(scale, 10000);
        decimal::lemma_pow10_positive(28);
        assert(ratio.units() >= 0 ==> ratio.units() * scale.units() >= 0) by (nonlinear_arith)
            requires
                scale.units() > 0,
        ;
        assert(ratio.units() <= 0 ==> ratio.units() * scale.units() <= 0) by (nonlinear_arith)
            requires
                scale.units() > 0,
        ;
        assert forall|c: Decimal| true implies (c.units() <= ratio.units() ==> #[trigger] c.units()
            * scale.units() <= ratio.units() * scale.units()) && (c.units() >= ratio.units()
            ==> c.units() * scale.units() >= ratio.units() * scale.units()) by {
            assert(c.units() <= ratio.units() ==> c.units() * scale.units() <= ratio.units()
                * scale.units()) by (nonlinear_arith)
                requires
                    scale.units() > 0,
            ;
            assert(c.units() >= ratio.units() ==> c.units() * scale.units() >= ratio.units()
                * scale.units()) by (nonlinear_arith)
                requires
                    scale.units() > 0,
            ;
        }
    }
    ratio.checked_mul(scale)
}

/// `a - b`, in basis points of `base`.
pub fn checked_difference_bps(a: Decimal, b: Decimal, base: Decimal) -> (r: Result<
    Decimal,
    Overflow,
>)
    ensures
        r == difference_bps(a, b, base),
        decimal::negated_outcome(r) == difference_bps(b, a, base),
        base.units() > 0 ==> (r matches Ok(bps) ==> (bps.units() > 0 ==> a.units() > b.units())),
        base.units() > 0 ==> (r matches Ok(bps) ==> (bps.units() < 0 ==> a.units() < b.units())),
        difference_bps_keeps_order(a, b, base, r),
{
    proof {
        reveal(difference_bps_keeps_order);
        reveal(ratio_bps_keeps_order);
        reveal(decimal::difference_keeps_order);
    }
    let difference = a.checked_sub(b)?;
    proof {
        let (d, u) = (difference.units(), base.units());
        assert(u > 0 && d <= 0 ==> d * u <= 0) by (nonlinear_arith);
        assert(u > 0 && d >= 0 ==> d * u >= 0) by (nonlinear_arith);
    }
    checked_ratio_bps(difference, base)
}

/// Half of `a + b`.
pub fn checked_midpoint(a: Decimal, b: Decimal) -> (r: Result<Decimal, Overflow>)
    ensures
        r == midpoint(a, b),
        r == midpoint(b, a),
        midpoint_keeps_order(a, b, r),
{
    proof {
        reveal(midpoint_keeps_order);
        reveal(decimal::sum_keeps_order);
        reveal(decimal::quotient_keeps_order);
        decimal::lemma_decimal_fields(a, 2);
        decimal::lemma_pow10_positive(28);
    }
    let sum = a.checked_add(b)?;
    sum.checked_div(Decimal::from_u64(2))
}

impl Price {
    /// How far `self` lies from `other`, in basis points of the point halfway between them; nothing
    /// where that point is zero.
    pub open spec fn spread_bps_outcome(self, other: Price) -> Result<Option<Decimal>, Overflow> {
        match midpoint(self.0, other.0) {
            Ok(reference) => if reference.units() == 0 {
                Ok(None)
            } else {
                match difference_bps(self.0, other.0, reference) {
                    Ok(bps) => Ok(Some(bps)),
                    Err(e) => Err(e),
                }
            },
            Err(e) => Err(e),
        }
    }

    /// A price of zero.
    pub fn zero() -> (r: Price)
        ensures
            r == Price(Decimal::whole(0)),
    {
        Price(Decimal::zero())
    }

    /// The price `v`.
    pub fn new(v: Decimal) -> (r: Price)
        ensures
            r == Price(v),
    {
        Price(v)
    }

    /// The number behind the price.
    pub fn raw(&self) -> (r: Decimal)
        ensures
            r == self.0,
    {
        self.0
    }

    /// Whether the price is above zero.
    pub fn is_positive(&self) -> (r: bool)
        ensures
            r == (self.0.units() > 0),
    {
        self.0.is_positive()
    }

    /// How far `self` lies from `other`, in basis points of the point halfway between them; `None`
    /// where that point is zero. Swapping the two prices flips the sign and nothing else.
    pub fn checked_spread_bps(&self, other: Price) -> (r: Result<Option<Decimal>, Overflow>)
        ensures
            r == self.spread_bps_outcome(other),
            other.spread_bps_outcome(*self) == match r {
                Ok(Some(bps)) => Ok(Some(bps.negated())),
                Ok(None) => Ok(None),
                Err(e) => Err(e),
            },
    {
        let reference = checked_midpoint(self.0, other.0)?;
        if reference.is_zero() {
            return Ok(None);
        }
        let bps = checked_difference_bps(self.0, other.0, reference)?;
        Ok(Some(bps))
    }

    /// How far `self` lies from `other`, in basis points of the point halfway between them; `None`
    /// where that point is zero.
    pub fn spread_bps(&self, other: Price) -> (r: Option<Decimal>)
        requires
            self.spread_bps_outcome(other) is Ok,
        ensures
            self.spread_bps_outcome(other) == Ok::<Option<Decimal>, Overflow>(r),
            other.spread_bps_outcome(*self) == Ok::<Option<Decimal>, Overflow>(
                match r {
                    Some(bps) => Some(bps.negated()),
                    None => None,
                },
            ),
    {
        match self.checked_spread_bps(other) {
            Ok(bps) => bps,
            Err(_) => None,
        }
    }
}

impl Quantity {
    /// A quantity of zero.
    pub fn zero() -> (r: Quantity)
        ensures
            r == Quantity(Decimal::whole(0)),
    {
        Quantity(Decimal::zero())
    }

    /// The quantity `v`.
    pub fn new(v: Decimal) -> (r: Quantity)
        ensures
            r == Quantity(v),
    {
        Quantity(v)
    }

    /// The number behind the quantity.
    pub fn raw(&self) -> (r: Decimal)
        ensures
            r == self.0,
    {
        self.0
    }

    /// Whether the quantity is above zero.
    pub fn is_positive(&self) -> (r: bool)
        ensures
            r == (self.0.units() > 0),
    {
        self.0.is_positive()
    }
}

/// Where decimals can hold the sum and its half, the midpoint lies exactly halfway.
pub proof fn law_midpoint_lies_halfway(a: Decimal, b: Decimal, m: Decimal)
    requires
        decimal::expressible(a.units() + b.units()),
        m.valid(),
        2 * m.units() == a.units() + b.units(),
    ensures
        midpoint(a, b) == Ok::<Decimal, Overflow>(m),
{
    let s = decimal::from_units(a.units() + b.units());
    decimal::law_sum_is_exact(a, b, s);
    decimal::lemma_decimal_fields(m, 2);
    decimal::lemma_pow10_positive(28);
    let t = decimal::pow10(28);
    assert(m.units() * (2 * t) == (2 * m.units()) * t) by (nonlinear_arith);
    decimal::law_quotient_is_exact(s, Decimal::whole(2), m);
}

/// Whether `bps` is `part` in basis points of `base`, with every number on the way a decimal; `part`
/// is counted in the units of a decimal.
pub open spec fn is_bps_of(part: int, base: Decimal, bps: Decimal) -> bool {
    &&& decimal::expressible(part)
    &&& bps.valid()
    &&& exists|q: Decimal|
        q.valid() && #[trigger] q.units() * base.units() == part * decimal::pow10(28) && bps.units()
            == 10000 * q.units()
}

/// Where decimals can hold every number on the way, a difference in basis points is exactly ten
/// thousand times the difference, divided by the base.
pub proof fn law_difference_in_bps_is_exact(a: Decimal, b: Decimal, base: Decimal, bps: Decimal)
    requires
        base.units() != 0,
        is_bps_of(a.units() - b.units(), base, bps),
    ensures
        difference_bps(a, b, base) == Ok::<Decimal, Overflow>(bps),
        bps.units() * base.units() == 10000 * (a.units() - b.units()) * decimal::pow10(28),
{
    let part = a.units() - b.units();
    let d = decimal::from_units(part);
    let t = decimal::pow10(28);
    let q = choose|q: Decimal|
        q.valid() && #[trigger] q.units() * base.units() == part * decimal::pow10(28) && bps.units()
            == 10000 * q.units();
    decimal::law_difference_is_exact(a, b, d);
    decimal::law_quotient_is_exact(d, base, q);
    decimal::lemma_decimal_fields(q, 10000);
    assert(bps.units() * t == q.units() * (10000 * t)) by (nonlinear_arith)
        requires
            bps.units() == 10000 * q.units(),
    ;
    decimal::law_product_is_exact(q, bps_per_one(), bps);
    assert(bps.units() * base.units() == 10000 * part * t) by (nonlinear_arith)
        requires
            bps.units() == 10000 * q.units(),
            q.units() * base.units() == part * t,
    ;
}

/// Where decimals can hold every number on the way, the distance of two prices is exactly the one less
/// the other, in basis points of the point halfway between them.
pub proof fn law_distance_of_prices_is_exact(a: Price, b: Price, mid: Decimal, bps: Decimal)
    requires
        decimal::expressible(a.0.units() + b.0.units()),
        mid.valid(),
        2 * mid.units() == a.0.units() + b.0.units(),
    ensures
        mid.units() == 0 ==> a.spread_bps_outcome(b) == Ok::<Option<Decimal>, Overflow>(None),
        mid.units() != 0 && is_bps_of(a.0.units() - b.0.units(), mid, bps)
            ==> a.spread_bps_outcome(b) == Ok::<Option<Decimal>, Overflow>(Some(bps)) && bps.units()
            * mid.units() == 10000 * (a.0.units() - b.0.units()) * decimal::pow10(28),
{
    law_midpoint_lies_halfway(a.0, b.0, mid);
    if mid.units() != 0 && is_bps_of(a.0.units() - b.0.units(), mid, bps) {
        law_difference_in_bps_is_exact(a.0, b.0, mid, bps);
    }
}

} // verus!
