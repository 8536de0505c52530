//! Decimal numbers: a 96-bit whole number over a power of ten.
//!
//! A [`Decimal`] is kept in lowest terms, so two decimals are equal exactly when they have the
//! same fields. Arithmetic, ordering, rounding and text conversion are those of the
//! `rust_decimal` crate; each call into it stands in a function of its own below.

use vstd::prelude::*;

use crate::text;

verus! {

/// The largest whole number that a decimal can hold: 2^96 - 1.
pub open spec fn max_whole() -> int {
    79228162514264337593543950335
}

/// The most digits that a decimal can have behind the point.
pub open spec fn max_places() -> nat {
    28
}

/// Ten to the power `n`.
pub open spec fn pow10(n: nat) -> int
    decreases n,
{
    if n == 0 {
        1
    } else {
        10 * pow10((n - 1) as nat)
    }
}

/// Whether `num` over ten to the power `places` is a decimal in lowest terms.
pub open spec fn lowest_terms(num: int, places: nat) -> bool {
    &&& -max_whole() <= num <= max_whole()
    &&& places <= max_places()
    &&& places > 0 ==> num % 10 != 0
}

/// An arithmetic result that no decimal can hold, or a division by zero.
#[derive(Clone, Copy, Debug, PartialEq, Eq, Structural)]
pub struct Overflow;

/// A number with at most 28 digits behind the point.
#[derive(Clone, Copy, Debug, PartialEq, Eq, Hash, Structural)]
pub struct Decimal {
    mantissa: i128,
    scale: u32,
}

impl Decimal {
    /// The number with the point left out.
    pub closed spec fn num(self) -> int {
        self.mantissa as int
    }

    /// The count of digits behind the point.
    pub closed spec fn places(self) -> nat {
        self.scale as nat
    }

    /// Whether the number is one that a decimal can hold, in lowest terms.
    #[verifier::type_invariant]
    pub open spec fn valid(self) -> bool {
        lowest_terms(self.num(), self.places())
    }

    /// The value, counted in units of ten to the power -28.
    #[verifier::opaque]
    pub open spec fn units(self) -> int {
        self.num() * pow10((max_places() - self.places()) as nat)
    }

    /// The whole number `n`.
    pub closed spec fn whole(n: int) -> Decimal {
        Decimal { mantissa: n as i128, scale: 0 }
    }

    /// The number, its sign dropped.
    pub open spec fn size(self) -> Decimal {
        if self.units() < 0 {
            self.negated()
        } else {
            self
        }
    }

    /// The decimal with the opposite sign.
    pub closed spec fn negated(self) -> Decimal {
        Decimal { mantissa: (-self.mantissa) as i128, scale: self.scale }
    }
}

/// The decimal with the fields `num` and `places`.
pub closed spec fn decimal_of(num: int, places: nat) -> Decimal {
    Decimal { mantissa: num as i128, scale: places as u32 }
}

/// Whether some decimal has the value `units`.
pub open spec fn expressible(units: int) -> bool {
    exists|d: Decimal| d.valid() && #[trigger] d.units() == units
}

/// The decimal with the value `units`, where there is one.
pub open spec fn from_units(units: int) -> Decimal {
    choose|d: Decimal| d.valid() && #[trigger] d.units() == units
}

/// Powers of ten are positive.
pub proof fn lemma_pow10_positive(n: nat)
    ensures
        pow10(n) > 0,
    decreases n,
{
    if n > 0 {
        lemma_pow10_positive((n - 1) as nat);
    }
}

/// Powers of ten multiply by adding the exponents.
pub proof fn lemma_pow10_add(a: nat, b: nat)
    ensures
        pow10(a + b) == pow10(a) * pow10(b),
    decreases a,
{
    if a > 0 {
        lemma_pow10_add((a - 1) as nat, b);
        let p = pow10((a - 1) as nat);
        let q = pow10(b);
        assert(10 * (p * q) == (10 * p) * q) by (nonlinear_arith);
        assert((a + b - 1) as nat == (a - 1) as nat + b);
    } else {
        assert(pow10(a) * pow10(b) == pow10(b));
    }
}

proof fn lemma_units_injective_ordered(a: Decimal, b: Decimal)
    requires
        a.valid(),
        b.valid(),
        a.units() == b.units(),
        a.places() <= b.places(),
    ensures
        a == b,
{
    reveal(Decimal::units);
    let more = (b.places() - a.places()) as nat;
    let rest = (max_places() - b.places()) as nat;
    lemma_pow10_add(more, rest);
    lemma_pow10_positive(rest);
    assert((max_places() - a.places()) as nat == more + rest);
    let p = pow10(more);
    let q = pow10(rest);
    assert(a.num() * (p * q) == (a.num() * p) * q) by (nonlinear_arith);
    assert(a.num() * p == b.num()) by (nonlinear_arith)
        requires
            (a.num() * p) * q == b.num() * q,
            q > 0,
    ;
    if more > 0 {
        let r = pow10((more - 1) as nat);
        assert(a.num() * (10 * r) == 10 * (a.num() * r)) by (nonlinear_arith);
        assert(b.num() == 10 * (a.num() * r));
        assert(b.num() % 10 == 0);
    }
}

/// Decimals with the same value are the same decimal.
pub proof fn lemma_units_injective(a: Decimal, b: Decimal)
    requires
        a.valid(),
        b.valid(),
        a.units() == b.units(),
    ensures
        a == b,
{
    if a.places() <= b.places() {
        lemma_units_injective_ordered(a, b);
    } else {
        lemma_units_injective_ordered(b, a);
    }
}

/// A decimal is the one that its value names.
pub proof fn lemma_from_units(d: Decimal)
    requires
        d.valid(),
    ensures
        expressible(d.units()),
        from_units(d.units()) == d,
{
    let e = from_units(d.units());
    assert(e.valid() && e.units() == d.units());
    lemma_units_injective(d, e);
}

/// What `whole` and `negated` are made of.
pub proof fn lemma_decimal_fields(d: Decimal, n: int)
    ensures
        -max_whole() <= n <= max_whole() ==> {
            &&& Decimal::whole(n).num() == n
            &&& Decimal::whole(n).places() == 0
            &&& Decimal::whole(n).valid()
            &&& Decimal::whole(n).units() == n * pow10(28)
        },
        d.valid() ==> {
            &&& d.negated().num() == -d.num()
            &&& d.negated().places() == d.places()
            &&& d.negated().valid()
            &&& d.negated().units() == -d.units()
        },
{
    reveal(Decimal::units);
    if d.valid() {
        let p = pow10((max_places() - d.places()) as nat);
        assert((-d.num()) * p == -(d.num() * p)) by (nonlinear_arith);
    }
}

/// The value has the sign of the whole number that it is made of.
pub proof fn lemma_units_sign(d: Decimal)
    ensures
        d.units() > 0 <==> d.num() > 0,
        d.units() < 0 <==> d.num() < 0,
{
    reveal(Decimal::units);
    let p = pow10((max_places() - d.places()) as nat);
    lemma_pow10_positive((max_places() - d.places()) as nat);
    assert(d.num() * p > 0 <==> d.num() > 0) by (nonlinear_arith)
        requires
            p > 0,
    ;
    assert(d.num() * p < 0 <==> d.num() < 0) by (nonlinear_arith)
        requires
            p > 0,
    ;
}

/// There is one exact product.
pub proof fn lemma_product_unique(a: Decimal, b: Decimal, p: Decimal, q: Decimal)
    requires
        is_product(a, b, p),
        is_product(a, b, q),
    ensures
        p == q,
{
    let t = pow10(28);
    lemma_pow10_positive(28);
    assert(p.units() == q.units()) by (nonlinear_arith)
        requires
            p.units() * t == q.units() * t,
            t > 0,
    ;
    lemma_units_injective(p, q);
}

/// There is one exact quotient.
pub proof fn lemma_quotient_unique(a: Decimal, b: Decimal, p: Decimal, q: Decimal)
    requires
        is_quotient(a, b, p),
        is_quotient(a, b, q),
    ensures
        p == q,
{
    let t = b.units();
    assert(p.units() == q.units()) by (nonlinear_arith)
        requires
            p.units() * t == q.units() * t,
            t != 0,
    ;
    lemma_units_injective(p, q);
}

/// A number that is not too large, with digits behind the point that are not too many, is the value
/// of a decimal.
pub proof fn lemma_expressible(num: int, places: nat)
    requires
        -max_whole() <= num <= max_whole(),
        places <= max_places(),
    ensures
        expressible(num * pow10((max_places() - places) as nat)),
    decreases places,
{
    if places > 0 && num % 10 == 0 {
        let p = pow10((max_places() - places) as nat);
        lemma_expressible(num / 10, (places - 1) as nat);
        assert((max_places() - (places - 1) - 1) as nat == (max_places() - places) as nat);
        assert(pow10((max_places() - (places - 1)) as nat) == 10 * p);
        assert(num / 10 * (10 * p) == num * p) by (nonlinear_arith)
            requires
                num % 10 == 0,
        ;
    } else {
        reveal(Decimal::units);
        lemma_decimal_of(num, places);
        let d = decimal_of(num, places);
        assert(d.valid() && d.units() == num * pow10((max_places() - places) as nat));
    }
}

/// What `decimal_of` is made of.
pub proof fn lemma_decimal_of(num: int, places: nat)
    requires
        lowest_terms(num, places),
    ensures
        decimal_of(num, places).num() == num,
        decimal_of(num, places).places() == places,
        decimal_of(num, places).valid(),
{
}

const MAX_WHOLE: i128 = 79228162514264337593543950335;

/// What `rust_decimal` gives for `a + b`; `None` is an overflow.
pub uninterp spec fn decimal_sum(a: Decimal, b: Decimal) -> Option<Decimal>;

/// What `rust_decimal` gives for `a - b`; `None` is an overflow.
pub uninterp spec fn decimal_difference(a: Decimal, b: Decimal) -> Option<Decimal>;

/// What `rust_decimal` gives for `a * b`; `None` is an overflow.
pub uninterp spec fn decimal_product(a: Decimal, b: Decimal) -> Option<Decimal>;

/// What `rust_decimal` gives for `a / b`; `None` is an overflow or a division by zero.
pub uninterp spec fn decimal_quotient(a: Decimal, b: Decimal) -> Option<Decimal>;

/// The number as text: the digits of its numerator, with a point before the last `places` of them
/// and at least one digit before the point.
pub open spec fn decimal_text(d: Decimal) -> Seq<char> {
    let size = if d.num() < 0 { (-d.num()) as nat } else { d.num() as nat };
    let all = text::padded(size, d.places() + 1);
    let point = all.len() - d.places();
    let body = if d.places() == 0 {
        all
    } else {
        all.take(point) + "."@ + all.skip(point)
    };
    if d.num() < 0 {
        "-"@ + body
    } else {
        body
    }
}

/// The decimal that `rust_decimal` reads from `text`; `None` is text that it refuses.
pub uninterp spec fn decimal_parsed(text: Seq<char>) -> Option<Decimal>;

/// Whether `p` is exactly `a * b`.
pub open spec fn is_product(a: Decimal, b: Decimal, p: Decimal) -> bool {
    p.valid() && p.units() * pow10(28) == a.units() * b.units()
}

/// Whether `q` is exactly `a / b`.
pub open spec fn is_quotient(a: Decimal, b: Decimal, q: Decimal) -> bool {
    q.valid() && b.units() != 0 && q.units() * b.units() == a.units() * pow10(28)
}

pub open spec fn or_overflow(d: Option<Decimal>) -> Result<Decimal, Overflow> {
    match d {
        Some(d) => Ok(d),
        None => Err(Overflow),
    }
}

/// The outcome with the opposite sign.
pub open spec fn negated_outcome(r: Result<Decimal, Overflow>) -> Result<Decimal, Overflow> {
    match r {
        Ok(d) => Ok(d.negated()),
        Err(e) => Err(e),
    }
}

/// `a + b`: the exact sum where a decimal can hold it, else what `rust_decimal` rounds it to.
#[verifier::opaque]
pub open spec fn sum_of(a: Decimal, b: Decimal) -> Result<Decimal, Overflow> {
    if expressible(a.units() + b.units()) {
        Ok(from_units(a.units() + b.units()))
    } else {
        or_overflow(decimal_sum(a, b))
    }
}

/// `a - b`: the exact difference where a decimal can hold it, else what `rust_decimal` rounds it
/// to.
#[verifier::opaque]
pub open spec fn difference_of(a: Decimal, b: Decimal) -> Result<Decimal, Overflow> {
    if expressible(a.units() - b.units()) {
        Ok(from_units(a.units() - b.units()))
    } else {
        or_overflow(decimal_difference(a, b))
    }
}

/// `a * b`: the exact product where a decimal can hold it, else what `rust_decimal` rounds it to.
#[verifier::opaque]
pub open spec fn product_of(a: Decimal, b: Decimal) -> Result<Decimal, Overflow> {
    if exists|p: Decimal| is_product(a, b, p) {
        Ok(choose|p: Decimal| is_product(a, b, p))
    } else {
        or_overflow(decimal_product(a, b))
    }
}

/// `a / b`: the exact quotient where a decimal can hold it, else what `rust_decimal` rounds it to.
#[verifier::opaque]
pub open spec fn quotient_of(a: Decimal, b: Decimal) -> Result<Decimal, Overflow> {
    if exists|q: Decimal| is_quotient(a, b, q) {
        Ok(choose|q: Decimal| is_quotient(a, b, q))
    } else {
        or_overflow(decimal_quotient(a, b))
    }
}

/// Whether `x` is not above `y`, where both are numbers.
pub open spec fn in_order(x: Result<Decimal, Overflow>, y: Result<Decimal, Overflow>) -> bool {
    match (x, y) {
        (Ok(x), Ok(y)) => x.units() <= y.units(),
        _ => true,
    }
}

/// Whether the outcome, where it is a number, is one that a decimal can hold.
pub open spec fn is_decimal(x: Result<Decimal, Overflow>) -> bool {
    x matches Ok(d) ==> d.valid()
}

/// Whether rounding keeps `r` in order with other sums, `r` standing for that of `a` and `b`: no
/// lesser sum comes out above it, and no greater one below it.
#[verifier::opaque]
pub open spec fn sum_keeps_order(a: Decimal, b: Decimal, r: Result<Decimal, Overflow>) -> bool {
    forall|c: Decimal, d: Decimal|
        c.valid() && d.valid() ==> {
            let other = #[trigger] sum_of(c, d);
            &&& is_decimal(other)
            &&& c.units() + d.units() <= a.units() + b.units() ==> in_order(other, r)
            &&& c.units() + d.units() >= a.units() + b.units() ==> in_order(r, other)
        }
}

/// Whether rounding keeps `r` in order with other differences, `r` standing for that of `a` and `b`.
#[verifier::opaque]
pub open spec fn difference_keeps_order(
    a: Decimal,
    b: Decimal,
    r: Result<Decimal, Overflow>,
) -> bool {
    forall|c: Decimal, d: Decimal|
        c.valid() && d.valid() ==> {
            let other = #[trigger] difference_of(c, d);
            &&& is_decimal(other)
            &&& c.units() - d.units() <= a.units() - b.units() ==> in_order(other, r)
            &&& c.units() - d.units() >= a.units() - b.units() ==> in_order(r, other)
        }
}

/// Whether rounding keeps `r` in order with other products, `r` standing for that of `a` and `b`.
#[verifier::opaque]
pub open spec fn product_keeps_order(a: Decimal, b: Decimal, r: Result<Decimal, Overflow>) -> bool {
    forall|c: Decimal, d: Decimal|
        c.valid() && d.valid() ==> {
            let other = #[trigger] product_of(c, d);
            &&& is_decimal(other)
            &&& c.units() * d.units() <= a.units() * b.units() ==> in_order(other, r)
            &&& c.units() * d.units() >= a.units() * b.units() ==> in_order(r, other)
        }
}

/// Whether rounding keeps `r` in order with other quotients by `b`, where `b` is above zero; `r`
/// stands for that of `a`.
#[verifier::opaque]
pub open spec fn quotient_keeps_order(
    a: Decimal,
    b: Decimal,
    r: Result<Decimal, Overflow>,
) -> bool {
    forall|c: Decimal|
        c.valid() && b.units() > 0 ==> {
            let other = #[trigger] quotient_of(c, b);
            &&& is_decimal(other)
            &&& c.units() <= a.units() ==> in_order(other, r)
            &&& c.units() >= a.units() ==> in_order(r, other)
        }
}

/// `units` rounded to `places` digits behind the point, a tie to the even digit.
pub open spec fn rounded_units(units: int, places: nat) -> int {
    if places >= max_places() {
        units
    } else {
        let step = pow10((max_places() - places) as nat);
        let size = if units < 0 { -units } else { units };
        let whole = size / step;
        let rest = size % step;
        let up = 2 * rest > step || (2 * rest == step && whole % 2 == 1);
        let rounded = (if up { whole + 1 } else { whole }) * step;
        if units < 0 { -rounded } else { rounded }
    }
}

/// `rust_decimal::Decimal::checked_add`, its result in lowest terms (`normalize`). Claimed: the
/// exact sum comes back where a decimal can hold it; a sum whose size is at most 2^96 - 1 never
/// overflows; the order of the operands does not matter; rounding keeps sums in order, and each is in
/// lowest terms.
#[verifier::external_body]
fn outside_sum(a: Decimal, b: Decimal) -> (r: Option<Decimal>)
    ensures
        r == decimal_sum(a, b),
        r == decimal_sum(b, a),
        expressible(a.units() + b.units()) ==> r == Some(from_units(a.units() + b.units())),
        -max_whole() * pow10(28) <= a.units() + b.units() <= max_whole() * pow10(28) ==> r is Some,
        sum_keeps_order(a, b, or_overflow(r)),
{
    let x = rust_decimal::Decimal::from_i128_with_scale(a.mantissa, a.scale);
    let y = rust_decimal::Decimal::from_i128_with_scale(b.mantissa, b.scale);
    let z = x.checked_add(y)?.normalize();
    Some(Decimal { mantissa: z.mantissa(), scale: z.scale() })
}

/// `rust_decimal::Decimal::checked_sub`, its result in lowest terms (`normalize`). Claimed: the
/// exact difference comes back where a decimal can hold it; a difference whose size is at most
/// 2^96 - 1 never overflows; swapping the operands flips the sign; the sign is that of the exact
/// difference; rounding keeps differences in order, and each is in lowest terms.
#[verifier::external_body]
fn outside_difference(a: Decimal, b: Decimal) -> (r: Option<Decimal>)
    ensures
        r == decimal_difference(a, b),
        negated_outcome(or_overflow(r)) == or_overflow(decimal_difference(b, a)),
        expressible(a.units() - b.units()) ==> r == Some(from_units(a.units() - b.units())),
        -max_whole() * pow10(28) <= a.units() - b.units() <= max_whole() * pow10(28) ==> r is Some,
        r matches Some(d) ==> (d.units() > 0 <==> a.units() > b.units()),
        r matches Some(d) ==> (d.units() < 0 <==> a.units() < b.units()),
        difference_keeps_order(a, b, or_overflow(r)),
{
    let x = rust_decimal::Decimal::from_i128_with_scale(a.mantissa, a.scale);
    let y = rust_decimal::Decimal::from_i128_with_scale(b.mantissa, b.scale);
    let z = x.checked_sub(y)?.normalize();
    Some(Decimal { mantissa: z.mantissa(), scale: z.scale() })
}

/// `rust_decimal::Decimal::checked_mul`, its result in lowest terms (`normalize`). Claimed: the
/// exact product comes back where a decimal can hold it; a product whose size is at most 2^96 - 1
/// never overflows, and one of 2^96 or more always does; flipping the sign of the left operand flips
/// that of the product; the product of two numbers of the same sign is not negative; rounding keeps
/// products in order, and each is in lowest terms.
#[verifier::external_body]
fn outside_product(a: Decimal, b: Decimal) -> (r: Option<Decimal>)
    ensures
        r == decimal_product(a, b),
        negated_outcome(or_overflow(r)) == or_overflow(decimal_product(a.negated(), b)),
        forall|p: Decimal| #[trigger] is_product(a, b, p) ==> r == Some(p),
        -max_whole() * pow10(56) <= a.units() * b.units() <= max_whole() * pow10(56) ==> r is Some,
        a.units() * b.units() >= (max_whole() + 1) * pow10(56) ==> r is None,
        a.units() * b.units() <= -(max_whole() + 1) * pow10(56) ==> r is None,
        r matches Some(d) ==> (a.units() * b.units() >= 0 ==> d.units() >= 0),
        r matches Some(d) ==> (a.units() * b.units() <= 0 ==> d.units() <= 0),
        product_keeps_order(a, b, or_overflow(r)),
{
    let x = rust_decimal::Decimal::from_i128_with_scale(a.mantissa, a.scale);
    let y = rust_decimal::Decimal::from_i128_with_scale(b.mantissa, b.scale);
    let z = x.checked_mul(y)?.normalize();
    Some(Decimal { mantissa: z.mantissa(), scale: z.scale() })
}

/// `rust_decimal::Decimal::checked_div`, its result in lowest terms (`normalize`). Claimed: the
/// exact quotient comes back where a decimal can hold it; there is no quotient by zero; flipping
/// the sign of the dividend flips that of the quotient; the quotient of two numbers of the same
/// sign is not negative; rounding keeps the quotients by one positive number in order, and each is
/// in lowest terms.
#[verifier::external_body]
fn outside_quotient(a: Decimal, b: Decimal) -> (r: Option<Decimal>)
    ensures
        r == decimal_quotient(a, b),
        negated_outcome(or_overflow(r)) == or_overflow(decimal_quotient(a.negated(), b)),
        forall|q: Decimal| #[trigger] is_quotient(a, b, q) ==> r == Some(q),
        b.units() == 0 ==> r is None,
        r matches Some(d) ==> (a.units() * b.units() >= 0 ==> d.units() >= 0),
        r matches Some(d) ==> (a.units() * b.units() <= 0 ==> d.units() <= 0),
        quotient_keeps_order(a, b, or_overflow(r)),
{
    let x = rust_decimal::Decimal::from_i128_with_scale(a.mantissa, a.scale);
    let y = rust_decimal::Decimal::from_i128_with_scale(b.mantissa, b.scale);
    let z = x.checked_div(y)?.normalize();
    Some(Decimal { mantissa: z.mantissa(), scale: z.scale() })
}

/// `<` of `rust_decimal::Decimal`. Claimed: it compares the values.
#[verifier::external_body]
fn outside_less(a: Decimal, b: Decimal) -> (r: bool)
    ensures
        r == (a.units() < b.units()),
{
    let x = rust_decimal::Decimal::from_i128_with_scale(a.mantissa, a.scale);
    let y = rust_decimal::Decimal::from_i128_with_scale(b.mantissa, b.scale);
    x < y
}

/// `rust_decimal::Decimal::round_dp`, its result in lowest terms (`normalize`). Claimed: the value
/// is rounded to `places` digits behind the point, a tie to the even digit.
#[verifier::external_body]
fn outside_round(d: Decimal, places: u32) -> (r: Decimal)
    ensures
        r.units() == rounded_units(d.units(), places as nat),
{
    let x = rust_decimal::Decimal::from_i128_with_scale(d.mantissa, d.scale);
    let y = x.round_dp(places).normalize();
    Decimal { mantissa: y.mantissa(), scale: y.scale() }
}

/// `rust_decimal::Decimal::ceil`, its result in lowest terms (`normalize`). Claimed: the result is
/// the least whole number that is not below `d`.
#[verifier::external_body]
fn outside_ceil(d: Decimal) -> (r: Decimal)
    ensures
        r.places() == 0,
        r.num() == -((-d.units()) / pow10(28)),
{
    let x = rust_decimal::Decimal::from_i128_with_scale(d.mantissa, d.scale);
    let y = x.ceil().normalize();
    Decimal { mantissa: y.mantissa(), scale: y.scale() }
}

/// `to_string` of `rust_decimal::Decimal`. Claimed: the digits come with a point where there are
/// some behind it, at least one digit before it, and a sign below zero.
#[verifier::external_body]
fn outside_text(d: Decimal) -> (r: String)
    ensures
        r@ == decimal_text(d),
{
    rust_decimal::Decimal::from_i128_with_scale(d.mantissa, d.scale).to_string()
}

/// `from_str` of `rust_decimal::Decimal`, its result in lowest terms (`normalize`). Its result is
/// named, not described.
#[verifier::external_body]
fn outside_parse(text: &str) -> (r: Option<Decimal>)
    ensures
        r == decimal_parsed(text@),
{
    let x = text.parse::<rust_decimal::Decimal>().ok()?.normalize();
    Some(Decimal { mantissa: x.mantissa(), scale: x.scale() })
}

impl Decimal {
    /// The decimal `num` over ten to the power `scale`.
    pub fn from_i128_with_scale(num: i128, scale: u32) -> (r: Decimal)
        requires
            -max_whole() <= num <= max_whole(),
            scale <= max_places(),
        ensures
            r.valid(),
            r.units() == num * pow10((max_places() - scale) as nat),
    {
        let mut mantissa: i128 = num;
        let mut places: u32 = scale;
        while places > 0 && mantissa % 10 == 0
            invariant
                -max_whole() <= mantissa <= max_whole(),
                places <= scale <= max_places(),
                mantissa * pow10((max_places() - places) as nat) == num * pow10(
                    (max_places() - scale) as nat,
                ),
            ensures
                places > 0 ==> mantissa as int % 10 != 0,
            decreases places,
        {
            proof {
                assert(mantissa as int % 10 == 0);
                let rest = mantissa as int / 10;
                let p = pow10((max_places() - places) as nat);
                assert(mantissa == 10 * rest);
                assert((10 * rest) * p == rest * (10 * p)) by (nonlinear_arith);
                assert((max_places() - (places - 1) - 1) as nat == (max_places() - places) as nat);
                assert(pow10((max_places() - (places - 1)) as nat) == 10 * p);
            }
            mantissa = mantissa / 10;
            places = places - 1;
        }
        proof {
            reveal(Decimal::units);
        }
        Decimal { mantissa, scale: places }
    }

    /// The decimal `num` over ten to the power `scale`.
    pub fn new(num: i64, scale: u32) -> (r: Decimal)
        requires
            scale <= max_places(),
        ensures
            r.valid(),
            r.units() == num * pow10((max_places() - scale) as nat),
    {
        Decimal::from_i128_with_scale(num as i128, scale)
    }

    /// The decimal `num` over ten to the power `scale`, or `None` where no decimal can be that.
    pub fn try_from_parts(num: i128, scale: u32) -> (r: Option<Decimal>)
        ensures
            r is Some <==> -max_whole() <= num <= max_whole() && scale <= max_places(),
            r matches Some(d) ==> d.valid() && d.units() == num * pow10(
                (max_places() - scale) as nat,
            ),
    {
        if num < -MAX_WHOLE || MAX_WHOLE < num || 28 < scale {
            None
        } else {
            Some(Decimal::from_i128_with_scale(num, scale))
        }
    }

    /// The whole number `n`.
    pub fn from_u64(n: u64) -> (r: Decimal)
        ensures
            r == Decimal::whole(n as int),
            r.valid(),
            r.num() == n,
            r.places() == 0,
    {
        Decimal { mantissa: n as i128, scale: 0 }
    }

    /// Zero.
    pub fn zero() -> (r: Decimal)
        ensures
            r == Decimal::whole(0),
            r.units() == 0,
    {
        proof {
            reveal(Decimal::units);
        }
        Decimal { mantissa: 0, scale: 0 }
    }

    /// The number with the point left out.
    pub fn mantissa(self) -> (r: i128)
        ensures
            r == self.num(),
    {
        self.mantissa
    }

    /// The count of digits behind the point.
    pub fn scale(self) -> (r: u32)
        ensures
            r == self.places(),
    {
        self.scale
    }

    /// Whether the value is zero.
    pub fn is_zero(self) -> (r: bool)
        ensures
            r == (self.units() == 0),
    {
        proof {
            use_type_invariant(&self);
            lemma_units_sign(self);
        }
        self.mantissa == 0
    }

    /// Whether the value is above zero.
    pub fn is_positive(self) -> (r: bool)
        ensures
            r == (self.units() > 0),
    {
        proof {
            use_type_invariant(&self);
            lemma_units_sign(self);
        }
        self.mantissa > 0
    }

    /// Whether the value is below that of `other`.
    pub fn is_less(self, other: Decimal) -> (r: bool)
        ensures
            r == (self.units() < other.units()),
    {
        outside_less(self, other)
    }

    /// The number with the opposite sign.
    pub fn negate(self) -> (r: Decimal)
        ensures
            r == self.negated(),
            r.units() == -self.units(),
    {
        proof {
            use_type_invariant(&self);
            lemma_decimal_fields(self, 0);
        }
        Decimal { mantissa: -self.mantissa, scale: self.scale }
    }

    /// The size of the number, its sign dropped.
    pub fn abs(self) -> (r: Decimal)
        ensures
            r == self.size(),
            r.units() == if self.units() < 0 { -self.units() } else { self.units() },
    {
        proof {
            use_type_invariant(&self);
            lemma_units_sign(self);
        }
        if self.mantissa < 0 {
            self.negate()
        } else {
            self
        }
    }

    /// `self + other`.
    pub fn checked_add(self, other: Decimal) -> (r: Result<Decimal, Overflow>)
        ensures
            r == sum_of(self, other),
            r == sum_of(other, self),
            -max_whole() * pow10(28) <= self.units() + other.units() <= max_whole() * pow10(28)
                ==> r is Ok,
            sum_keeps_order(self, other, r),
    {
        let sum = outside_sum(self, other);
        proof {
            reveal(sum_of);
        }
        match sum {
            Some(d) => Ok(d),
            None => Err(Overflow),
        }
    }

    /// `self - other`.
    pub fn checked_sub(self, other: Decimal) -> (r: Result<Decimal, Overflow>)
        ensures
            r == difference_of(self, other),
            negated_outcome(r) == difference_of(other, self),
            -max_whole() * pow10(28) <= self.units() - other.units() <= max_whole() * pow10(28)
                ==> r is Ok,
            r matches Ok(d) ==> (d.units() > 0 <==> self.units() > other.units()),
            r matches Ok(d) ==> (d.units() < 0 <==> self.units() < other.units()),
            difference_keeps_order(self, other, r),
    {
        let difference = outside_difference(self, other);
        proof {
            reveal(difference_of);
            let ghost u = self.units() - other.units();
            if expressible(u) {
                let d = from_units(u);
                assert(d.valid() && d.units() == u);
                lemma_decimal_fields(d, 0);
                lemma_from_units(d.negated());
            }
            if expressible(-u) {
                let d = from_units(-u);
                assert(d.valid() && d.units() == -u);
                lemma_decimal_fields(d, 0);
                lemma_from_units(d.negated());
            }
        }
        match difference {
            Some(d) => Ok(d),
            None => Err(Overflow),
        }
    }

    /// `self * other`.
    pub fn checked_mul(self, other: Decimal) -> (r: Result<Decimal, Overflow>)
        ensures
            r == product_of(self, other),
            negated_outcome(r) == product_of(self.negated(), other),
            -max_whole() * pow10(56) <= self.units() * other.units() <= max_whole() * pow10(56)
                ==> r is Ok,
            self.units() * other.units() >= (max_whole() + 1) * pow10(56) ==> r is Err,
            self.units() * other.units() <= -(max_whole() + 1) * pow10(56) ==> r is Err,
            r matches Ok(d) ==> (self.units() * other.units() >= 0 ==> d.units() >= 0),
            r matches Ok(d) ==> (self.units() * other.units() <= 0 ==> d.units() <= 0),
            product_keeps_order(self, other, r),
    {
        let product = outside_product(self, other);
        proof {
            use_type_invariant(&self);
            reveal(product_of);
            lemma_decimal_fields(self, 0);
            assert forall|p: Decimal| p.valid() implies is_product(self, other, p) == is_product(
                self.negated(),
                other,
                #[trigger] p.negated(),
            ) by {
                lemma_decimal_fields(p, 0);
                let t = pow10(28);
                assert((-p.units()) * t == -(p.units() * t)) by (nonlinear_arith);
                assert((-self.units()) * other.units() == -(self.units() * other.units()))
                    by (nonlinear_arith);
            }
            if exists|p: Decimal| is_product(self, other, p) {
                let p = choose|p: Decimal| is_product(self, other, p);
                lemma_decimal_fields(p, 0);
                assert(is_product(self.negated(), other, p.negated()));
                let m = choose|m: Decimal| is_product(self.negated(), other, m);
                lemma_product_unique(self.negated(), other, p.negated(), m);
            } else if exists|m: Decimal| is_product(self.negated(), other, m) {
                let m = choose|m: Decimal| is_product(self.negated(), other, m);
                lemma_decimal_fields(m, 0);
                lemma_decimal_fields(m.negated(), 0);
                lemma_from_units(m);
                lemma_units_injective(m, m.negated().negated());
                assert(is_product(self, other, m.negated()));
            }
        }
        match product {
            Some(d) => Ok(d),
            None => Err(Overflow),
        }
    }

    /// `self / other`.
    pub fn checked_div(self, other: Decimal) -> (r: Result<Decimal, Overflow>)
        ensures
            r == quotient_of(self, other),
            negated_outcome(r) == quotient_of(self.negated(), other),
            other.units() == 0 ==> r is Err,
            r matches Ok(d) ==> (self.units() * other.units() >= 0 ==> d.units() >= 0),
            r matches Ok(d) ==> (self.units() * other.units() <= 0 ==> d.units() <= 0),
            quotient_keeps_order(self, other, r),
    {
        let quotient = outside_quotient(self, other);
        proof {
            use_type_invariant(&self);
            reveal(quotient_of);
            lemma_decimal_fields(self, 0);
            assert forall|q: Decimal| q.valid() implies is_quotient(self, other, q) == is_quotient(
                self.negated(),
                other,
                #[trigger] q.negated(),
            ) by {
                lemma_decimal_fields(q, 0);
                let t = pow10(28);
                assert((-q.units()) * other.units() == -(q.units() * other.units()))
                    by (nonlinear_arith);
                assert((-self.units()) * t == -(self.units() * t)) by (nonlinear_arith);
            }
            if exists|q: Decimal| is_quotient(self, other, q) {
                let q = choose|q: Decimal| is_quotient(self, other, q);
                lemma_decimal_fields(q, 0);
                assert(is_quotient(self.negated(), other, q.negated()));
                let m = choose|m: Decimal| is_quotient(self.negated(), other, m);
                lemma_quotient_unique(self.negated(), other, q.negated(), m);
            } else if exists|m: Decimal| is_quotient(self.negated(), other, m) {
                let m = choose|m: Decimal| is_quotient(self.negated(), other, m);
                lemma_decimal_fields(m, 0);
                lemma_decimal_fields(m.negated(), 0);
                lemma_units_injective(m, m.negated().negated());
                assert(is_quotient(self, other, m.negated()));
            }
        }
        match quotient {
            Some(d) => Ok(d),
            None => Err(Overflow),
        }
    }

    /// The number rounded to `places` digits behind the point, a tie to the even digit.
    pub fn round_dp(self, places: u32) -> (r: Decimal)
        ensures
            r.valid(),
            r.units() == rounded_units(self.units(), places as nat),
    {
        let r = outside_round(self, places);
        proof {
            use_type_invariant(&r);
        }
        r
    }

    /// The least whole number that is not below the number.
    pub fn ceil(self) -> (r: Decimal)
        ensures
            r.valid(),
            r.places() == 0,
            r.num() == -((-self.units()) / pow10(28)),
    {
        let r = outside_ceil(self);
        proof {
            use_type_invariant(&r);
        }
        r
    }

    /// The number as text, without trailing zeros behind the point.
    pub fn to_text(self) -> (r: String)
        ensures
            r@ == decimal_text(self),
    {
        outside_text(self)
    }

    /// The number that `text` writes out.
    pub fn parse(text: &str) -> (r: Option<Decimal>)
        ensures
            r == decimal_parsed(text@),
            r matches Some(d) ==> d.valid(),
    {
        let r = outside_parse(text);
        proof {
            if let Some(d) = r {
                use_type_invariant(&d);
            }
        }
        r
    }
}

/// A sum that a decimal can hold is the exact one.
pub proof fn law_sum_is_exact(a: Decimal, b: Decimal, s: Decimal)
    requires
        s.valid(),
        s.units() == a.units() + b.units(),
    ensures
        sum_of(a, b) == Ok::<Decimal, Overflow>(s),
{
    reveal(sum_of);
    lemma_from_units(s);
}

/// A difference that a decimal can hold is the exact one.
pub proof fn law_difference_is_exact(a: Decimal, b: Decimal, d: Decimal)
    requires
        d.valid(),
        d.units() == a.units() - b.units(),
    ensures
        difference_of(a, b) == Ok::<Decimal, Overflow>(d),
{
    reveal(difference_of);
    lemma_from_units(d);
}

/// A product that a decimal can hold is the exact one.
pub proof fn law_product_is_exact(a: Decimal, b: Decimal, p: Decimal)
    requires
        p.valid(),
        p.units() * pow10(28) == a.units() * b.units(),
    ensures
        product_of(a, b) == Ok::<Decimal, Overflow>(p),
{
    reveal(product_of);
    assert(is_product(a, b, p));
    lemma_product_unique(a, b, p, choose|q: Decimal| is_product(a, b, q));
}

/// A quotient that a decimal can hold is the exact one.
pub proof fn law_quotient_is_exact(a: Decimal, b: Decimal, q: Decimal)
    requires
        q.valid(),
        b.units() != 0,
        q.units() * b.units() == a.units() * pow10(28),
    ensures
        quotient_of(a, b) == Ok::<Decimal, Overflow>(q),
{
    reveal(quotient_of);
    assert(is_quotient(a, b, q));
    lemma_quotient_unique(a, b, q, choose|c: Decimal| is_quotient(a, b, c));
}

/// Rounding gives a number with no more digits behind the point than asked for, which lies no further
/// away than half of the last digit, and halfway between two the one whose last digit is even. Numbers
/// that need no rounding stay, and the sign does not matter.
pub proof fn law_rounding_goes_to_the_nearest(units: int, places: nat)
    ensures
        rounded_units(-units, places) == -rounded_units(units, places),
        places >= 28 ==> rounded_units(units, places) == units,
        places < 28 ==> ({
            let step = pow10((28 - places) as nat);
            let r = rounded_units(units, places);
            &&& r % step == 0
            &&& -step <= 2 * (r - units) <= step
            &&& 2 * (r - units) == step || 2 * (r - units) == -step ==> (r / step) % 2 == 0
            &&& units % step == 0 ==> r == units
        }),
{
    if places < 28 {
        let step = pow10((28 - places) as nat);
        lemma_pow10_positive((28 - places) as nat);
        let size = if units < 0 { -units } else { units };
        let whole = size / step;
        let rest = size % step;
        let up = 2 * rest > step || (2 * rest == step && whole % 2 == 1);
        let to = if up { whole + 1 } else { whole };
        vstd::arithmetic::div_mod::lemma_fundamental_div_mod(size, step);
        assert(step * whole == whole * step) by (nonlinear_arith);
        assert((whole + 1) * step == whole * step + step) by (nonlinear_arith);
        assert(0 <= rest < step);
        let r = rounded_units(units, places);
        let n = if units < 0 { -to } else { to };
        assert((-to) * step == -(to * step)) by (nonlinear_arith);
        assert(r == n * step);
        vstd::arithmetic::div_mod::lemma_mod_multiples_basic(n, step);
        vstd::arithmetic::div_mod::lemma_div_multiples_vanish(n, step);
        assert(step * n == n * step) by (nonlinear_arith);
        assert(r / step == n);
        if units % step == 0 {
            vstd::arithmetic::div_mod::lemma_fundamental_div_mod(units, step);
            let q = units / step;
            if units < 0 {
                assert(size == (-q) * step) by (nonlinear_arith)
                    requires
                        units == step * q,
                        size == -units,
                ;
                vstd::arithmetic::div_mod::lemma_mod_multiples_basic(-q, step);
            }
            assert(rest == 0);
        }
    }
}

/// The text of a number starts with a minus sign exactly where the number is below zero, has exactly
/// its places behind the point and at least one digit before it, and its digits write the number with
/// the point left out.
pub proof fn law_text_writes_the_number(d: Decimal)
    ensures
        ({
            let t = decimal_text(d);
            let size = if d.num() < 0 { -d.num() } else { d.num() };
            let body = if d.num() < 0 { t.skip(1) } else { t };
            let point = body.len() - d.places() - 1;
            &&& d.num() < 0 ==> t.len() > 0 && t[0] == '-'
            &&& d.places() == 0 ==> text::digits_value(body) == size && body.len() > 0
            &&& d.places() > 0 ==> point > 0 && body[point] == '.' && text::digits_value(
                body.take(point) + body.skip(point + 1),
            ) == size
        }),
{
    reveal_strlit("-");
    reveal_strlit(".");
    let size = if d.num() < 0 { (-d.num()) as nat } else { d.num() as nat };
    let all = text::padded(size, d.places() + 1);
    text::law_filling_up_keeps_the_number(size, d.places() + 1);
    let t = decimal_text(d);
    let at = all.len() - d.places();
    let whole = if d.places() == 0 {
        all
    } else {
        all.take(at) + "."@ + all.skip(at)
    };
    let body = if d.num() < 0 { t.skip(1) } else { t };
    assert(body =~= whole);
    if d.places() > 0 {
        let point = body.len() - d.places() - 1;
        assert(point == at);
        assert(body.take(point) + body.skip(point + 1) =~= all);
    }
}

} // verus!
