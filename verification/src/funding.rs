//! Funding rates.
//!
//! Venues exchange funding at different intervals, so rates per interval must not be compared as
//! they are: a rate per eight hours and the same rate per hour differ eightfold. Rates are compared
//! by the year.
//!
//! A positive rate means that those who are long pay those who are short.

use vstd::prelude::*;

use crate::decimal;
use crate::decimal::{Decimal, Overflow};
use crate::market_stats::MarketStats;
use crate::num;
use crate::num::{Price, Quantity};
use crate::symbol::{Dex, Symbol};
use crate::trace::MessageTrace;

verus! {

/// A funding rate, with the figures that come with it.
#[derive(Clone, Copy, Debug, PartialEq, Eq, Structural)]
pub struct FundingRate {
    pub dex: Dex,
    pub symbol: Symbol,
    /// The rate of one interval.
    pub current_rate: Decimal,
    /// The venue's forecast of the rate.
    pub predicted_rate: Option<Decimal>,
    /// The interval, in hours.
    pub interval_hours: Option<Decimal>,
    /// When funding is next exchanged (milliseconds since the epoch).
    pub next_funding_time_ms: Option<u64>,
    pub index_price: Option<Price>,
    pub mark_price: Option<Price>,
    /// The open interest, in contracts.
    pub open_interest: Option<Quantity>,
    /// The volume of 24 hours, in US dollars.
    pub volume_24h_usd: Option<Decimal>,
    pub trace: MessageTrace,
}

/// The difference between the funding rates of two venues: short where the rate is higher, long
/// where it is lower.
#[derive(Clone, Copy, Debug, PartialEq, Eq, Structural)]
pub struct FundingSpread {
    pub symbol: Symbol,
    pub long_dex: Dex,
    pub short_dex: Dex,
    /// The difference of one interval, in basis points. Of use only where the intervals are the
    /// same.
    pub rate_diff_bps: Decimal,
    /// The difference of a year, in basis points.
    pub annualized_diff_bps: Option<Decimal>,
    /// Whether both intervals are known and the same.
    pub same_interval: bool,
    /// The interval, in hours, where it is the same.
    pub interval_hours: Option<Decimal>,
}

/// A rate in basis points is exactly ten thousand times the rate, or too large for a decimal.
proof fn lemma_bps_is_exact_or_too_large(rate: Decimal)
    requires
        rate.valid(),
    ensures
        ({
            let units = rate.units() * num::bps_per_one().units();
            ||| exists|p: Decimal| decimal::is_product(rate, num::bps_per_one(), p) && #[trigger]
                p.units() == 10000 * rate.units()
            ||| units >= (decimal::max_whole() + 1) * decimal::pow10(56)
            ||| units <= -(decimal::max_whole() + 1) * decimal::pow10(56)
        }),
{
    reveal(Decimal::units);
    decimal::lemma_decimal_fields(rate, 10000);
    let t = decimal::pow10(28);
    decimal::lemma_pow10_positive(28);
    decimal::lemma_pow10_add(28, 28);
    let n = rate.num();
    let p = rate.places();
    let step = decimal::pow10((28 - p) as nat);
    assert(rate.units() == n * step);
    assert((n * step) * (10000 * t) == (10000 * (n * step)) * t) by (nonlinear_arith);
    reveal_with_fuel(decimal::pow10, 5);
    assert(decimal::pow10(4) == 10000);
    if p >= 4 {
        let d = decimal::decimal_of(n, (p - 4) as nat);
        decimal::lemma_decimal_of(n, (p - 4) as nat);
        decimal::lemma_pow10_add((28 - p) as nat, 4);
        assert((28 - (p - 4)) as nat == (28 - p) as nat + 4);
        assert(n * (step * 10000) == 10000 * (n * step)) by (nonlinear_arith);
        assert(d.units() == 10000 * rate.units());
        assert(decimal::is_product(rate, num::bps_per_one(), d));
    } else {
        let more = decimal::pow10((4 - p) as nat);
        decimal::lemma_pow10_add((4 - p) as nat, (28 - p) as nat);
        decimal::lemma_pow10_add((28 - p) as nat, 4);
        decimal::lemma_pow10_add((4 - p) as nat, 28);
        decimal::lemma_pow10_positive((4 - p) as nat);
        assert((28 - p) as nat + 4 == (4 - p) as nat + 28);
        assert(step * 10000 == more * t);
        let whole = n * more;
        assert(10000 * (n * step) == (n * more) * t) by (nonlinear_arith)
            requires
                step * 10000 == more * t,
        ;
        if -decimal::max_whole() <= whole <= decimal::max_whole() {
            decimal::lemma_decimal_fields(rate, whole);
            let d = Decimal::whole(whole);
            assert(d.units() == 10000 * rate.units());
            assert(decimal::is_product(rate, num::bps_per_one(), d));
        } else {
            let m = decimal::max_whole() + 1;
            assert(whole >= m ==> (whole * t) * t >= m * (t * t)) by (nonlinear_arith)
                requires
                    t > 0,
            ;
            assert(whole <= -m ==> (whole * t) * t <= -m * (t * t)) by (nonlinear_arith)
                requires
                    t > 0,
            ;
        }
    }
}

/// `total / rate`, rounded up to the next whole number.
pub open spec fn intervals_needed(rate: Decimal, total: Decimal) -> Result<int, Overflow> {
    match decimal::quotient_of(total, rate) {
        Ok(q) => Ok(-((-q.units()) / decimal::pow10(28))),
        Err(e) => Err(e),
    }
}

/// How many intervals it takes until a difference of `rate_diff_bps` has paid `total_fee_bps`;
/// nothing where it never does, or where there are more than a `u32` can count.
pub open spec fn breakeven_outcome(rate_diff_bps: Decimal, total_fee_bps: Decimal) -> Result<
    Option<u32>,
    Overflow,
> {
    if rate_diff_bps.units() <= 0 {
        Ok(None)
    } else if total_fee_bps.units() <= 0 {
        Ok(Some(0))
    } else {
        match intervals_needed(rate_diff_bps, total_fee_bps) {
            Ok(n) => if 0 <= n <= u32::MAX {
                Ok(Some(n as u32))
            } else {
                Ok(None)
            },
            Err(e) => Err(e),
        }
    }
}

impl FundingRate {
    /// The rate of one interval, in basis points.
    pub open spec fn rate_bps_outcome(self) -> Result<Decimal, Overflow> {
        decimal::product_of(self.current_rate, num::bps_per_one())
    }

    /// How many intervals a year has, where the interval is known and positive.
    pub open spec fn intervals_outcome(self) -> Result<Option<Decimal>, Overflow> {
        match self.interval_hours {
            Some(hours) => if hours.units() <= 0 {
                Ok(None)
            } else {
                match decimal::quotient_of(Decimal::whole(24), hours) {
                    Ok(per_day) => match decimal::product_of(per_day, Decimal::whole(365)) {
                        Ok(per_year) => Ok(Some(per_year)),
                        Err(e) => Err(e),
                    },
                    Err(e) => Err(e),
                }
            },
            None => Ok(None),
        }
    }

    /// The rate of a year in per cent, where the interval is known and positive.
    pub open spec fn annualized_pct_outcome(self) -> Result<Option<Decimal>, Overflow> {
        match self.intervals_outcome() {
            Ok(Some(per_year)) => match decimal::product_of(self.current_rate, per_year) {
                Ok(rate) => match decimal::product_of(rate, Decimal::whole(100)) {
                    Ok(pct) => Ok(Some(pct)),
                    Err(e) => Err(e),
                },
                Err(e) => Err(e),
            },
            Ok(None) => Ok(None),
            Err(e) => Err(e),
        }
    }

    /// The rate of a year in basis points, where the interval is known and positive.
    pub open spec fn annualized_bps_outcome(self) -> Result<Option<Decimal>, Overflow> {
        match self.rate_bps_outcome() {
            Ok(bps) => match self.intervals_outcome() {
                Ok(Some(per_year)) => match decimal::product_of(bps, per_year) {
                    Ok(bps) => Ok(Some(bps)),
                    Err(e) => Err(e),
                },
                Ok(None) => Ok(None),
                Err(e) => Err(e),
            },
            Err(e) => Err(e),
        }
    }

    /// Whether both intervals are known and the same.
    pub open spec fn shares_interval(self, other: FundingRate) -> bool {
        self.interval_hours is Some && self.interval_hours == other.interval_hours
    }

    /// The mark price, or else the index price.
    pub open spec fn reference_price(self) -> Option<Price> {
        if self.mark_price is Some {
            self.mark_price
        } else {
            self.index_price
        }
    }

    /// The rate of one interval, in basis points: ten thousand times the rate.
    pub fn checked_rate_bps(&self) -> (r: Result<Decimal, Overflow>)
        ensures
            r == self.rate_bps_outcome(),
            r matches Ok(bps) ==> bps.units() == 10000 * self.current_rate.units(),
    {
        let r = self.current_rate.checked_mul(num::bps_denominator());
        proof {
            let rate = self.current_rate;
            use_type_invariant(&self.current_rate);
            lemma_bps_is_exact_or_too_large(rate);
            if let Ok(bps) = r {
                let p = choose|p: Decimal|
                    decimal::is_product(rate, num::bps_per_one(), p) && #[trigger] p.units()
                        == 10000 * rate.units();
                reveal(decimal::product_of);
                decimal::lemma_product_unique(rate, num::bps_per_one(), p, bps);
            }
        }
        r
    }

    /// The rate of one interval, in basis points: ten thousand times the rate.
    pub fn rate_bps(&self) -> (r: Decimal)
        requires
            self.rate_bps_outcome() is Ok,
        ensures
            self.rate_bps_outcome() == Ok::<Decimal, Overflow>(r),
            r.units() == 10000 * self.current_rate.units(),
    {
        match self.checked_rate_bps() {
            Ok(bps) => bps,
            Err(_) => Decimal::zero(),
        }
    }

    /// How many intervals a year has; `None` where the interval is not known or not positive.
    pub fn checked_intervals_per_year(&self) -> (r: Result<Option<Decimal>, Overflow>)
        ensures
            r == self.intervals_outcome(),
    {
        match self.interval_hours {
            Some(hours) => {
                if !hours.is_positive() {
                    return Ok(None);
                }
                let per_day = Decimal::from_u64(24).checked_div(hours)?;
                let per_year = per_day.checked_mul(Decimal::from_u64(365))?;
                Ok(Some(per_year))
            },
            None => Ok(None),
        }
    }

    /// How many intervals a year has; `None` where the interval is not known or not positive.
    pub fn intervals_per_year(&self) -> (r: Option<Decimal>)
        requires
            self.intervals_outcome() is Ok,
        ensures
            self.intervals_outcome() == Ok::<Option<Decimal>, Overflow>(r),
    {
        match self.checked_intervals_per_year() {
            Ok(per_year) => per_year,
            Err(_) => None,
        }
    }

    /// The rate of a year in per cent; `None` where the interval is not known or not positive.
    pub fn checked_annualized_pct(&self) -> (r: Result<Option<Decimal>, Overflow>)
        ensures
            r == self.annualized_pct_outcome(),
    {
        match self.checked_intervals_per_year()? {
            Some(per_year) => {
                let rate = self.current_rate.checked_mul(per_year)?;
                let pct = rate.checked_mul(Decimal::from_u64(100))?;
                Ok(Some(pct))
            },
            None => Ok(None),
        }
    }

    /// The rate of a year in per cent; `None` where the interval is not known or not positive.
    pub fn annualized_pct(&self) -> (r: Option<Decimal>)
        requires
            self.annualized_pct_outcome() is Ok,
        ensures
            self.annualized_pct_outcome() == Ok::<Option<Decimal>, Overflow>(r),
    {
        match self.checked_annualized_pct() {
            Ok(pct) => pct,
            Err(_) => None,
        }
    }

    /// The rate of a year in basis points, by which venues are compared; `None` where the interval
    /// is not known or not positive.
    pub fn checked_annualized_bps(&self) -> (r: Result<Option<Decimal>, Overflow>)
        ensures
            r == self.annualized_bps_outcome(),
    {
        let bps = self.checked_rate_bps()?;
        match self.checked_intervals_per_year()? {
            Some(per_year) => {
                let bps = bps.checked_mul(per_year)?;
                Ok(Some(bps))
            },
            None => Ok(None),
        }
    }

    /// The rate of a year in basis points, by which venues are compared; `None` where the interval
    /// is not known or not positive.
    pub fn annualized_bps(&self) -> (r: Option<Decimal>)
        requires
            self.annualized_bps_outcome() is Ok,
        ensures
            self.annualized_bps_outcome() == Ok::<Option<Decimal>, Overflow>(r),
    {
        match self.checked_annualized_bps() {
            Ok(bps) => bps,
            Err(_) => None,
        }
    }

    /// Whether both intervals are known and the same. One that is not known is the same as none.
    pub fn same_interval_as(&self, other: &FundingRate) -> (r: bool)
        ensures
            r == self.shares_interval(*other),
    {
        match (self.interval_hours, other.interval_hours) {
            (Some(a), Some(b)) => a == b,
            _ => false,
        }
    }

    /// How long the message was under way from the venue, in milliseconds.
    pub fn latency_ms(&self) -> (r: Option<i64>)
        ensures
            r == self.trace.exchange_delay_ms(),
    {
        self.trace.exchange_to_local_ms()
    }

    /// The figures on liquidity that came with the rate.
    pub open spec fn stats_of(self) -> MarketStats {
        MarketStats {
            dex: self.dex,
            symbol: self.symbol,
            open_interest: self.open_interest,
            volume_24h_usd: self.volume_24h_usd,
            reference_price: self.reference_price(),
            trace: self.trace,
        }
    }

    /// The figures on liquidity that came with the rate.
    pub fn market_stats(&self) -> (r: MarketStats)
        ensures
            r == self.stats_of(),
    {
        MarketStats {
            dex: self.dex,
            symbol: self.symbol,
            open_interest: self.open_interest,
            volume_24h_usd: self.volume_24h_usd,
            reference_price: if self.mark_price.is_some() {
                self.mark_price
            } else {
                self.index_price
            },
            trace: self.trace,
        }
    }
}

/// The spread with `short` as the higher of two rates, on different venues.
pub open spec fn spread_between(short: FundingRate, long: FundingRate) -> Result<
    FundingSpread,
    Overflow,
> {
    match (short.rate_bps_outcome(), long.rate_bps_outcome()) {
        (Ok(short_bps), Ok(long_bps)) => match decimal::difference_of(short_bps, long_bps) {
            Ok(rate_diff_bps) => match yearly_difference(short, long) {
                Ok(annualized_diff_bps) => Ok(
                    FundingSpread {
                        symbol: short.symbol,
                        long_dex: long.dex,
                        short_dex: short.dex,
                        rate_diff_bps,
                        annualized_diff_bps,
                        same_interval: short.shares_interval(long),
                        interval_hours: if short.shares_interval(long) {
                            short.interval_hours
                        } else {
                            None
                        },
                    },
                ),
                Err(e) => Err(e),
            },
            Err(e) => Err(e),
        },
        _ => Err(Overflow),
    }
}

/// The difference of the rates of a year, in basis points, where both are known.
pub open spec fn yearly_difference(short: FundingRate, long: FundingRate) -> Result<
    Option<Decimal>,
    Overflow,
> {
    match (short.annualized_bps_outcome(), long.annualized_bps_outcome()) {
        (Ok(Some(s)), Ok(Some(l))) => match decimal::difference_of(s, l) {
            Ok(d) => Ok(Some(d)),
            Err(e) => Err(e),
        },
        (Ok(_), Ok(_)) => Ok(None),
        _ => Err(Overflow),
    }
}

impl FundingSpread {
    /// The spread between two rates; nothing where they are for different instruments, on the same
    /// venue, or the same.
    pub open spec fn between_outcome(a: FundingRate, b: FundingRate) -> Result<
        Option<FundingSpread>,
        Overflow,
    > {
        if a.symbol != b.symbol || a.dex == b.dex || a.current_rate == b.current_rate {
            Ok(None)
        } else {
            let (short, long) = if a.current_rate.units() > b.current_rate.units() {
                (a, b)
            } else {
                (b, a)
            };
            match spread_between(short, long) {
                Ok(spread) => Ok(Some(spread)),
                Err(e) => Err(e),
            }
        }
    }

    /// The spread between two rates; `None` where they are for different instruments, on the same
    /// venue, or the same. The order of the two does not matter.
    pub fn checked_between(a: &FundingRate, b: &FundingRate) -> (r: Result<
        Option<FundingSpread>,
        Overflow,
    >)
        ensures
            r == FundingSpread::between_outcome(*a, *b),
            r == FundingSpread::between_outcome(*b, *a),
            r matches Ok(Some(spread)) ==> spread.rate_diff_bps.units() > 0,
    {
        proof {
            let (x, y) = (a.current_rate, b.current_rate);
            use_type_invariant(&a.current_rate);
            use_type_invariant(&b.current_rate);
            if x.units() == y.units() {
                decimal::lemma_units_injective(x, y);
            }
        }
        if a.symbol != b.symbol || a.dex == b.dex || a.current_rate == b.current_rate {
            return Ok(None);
        }
        let (short, long) = if b.current_rate.is_less(a.current_rate) {
            (a, b)
        } else {
            (b, a)
        };
        let same_interval = a.same_interval_as(b);
        let short_bps = short.checked_rate_bps()?;
        let long_bps = long.checked_rate_bps()?;
        let rate_diff_bps = short_bps.checked_sub(long_bps)?;
        let annualized_diff_bps = match (
            short.checked_annualized_bps()?,
            long.checked_annualized_bps()?,
        ) {
            (Some(s), Some(l)) => Some(s.checked_sub(l)?),
            _ => None,
        };
        Ok(
            Some(
                FundingSpread {
                    symbol: a.symbol,
                    long_dex: long.dex,
                    short_dex: short.dex,
                    rate_diff_bps,
                    annualized_diff_bps,
                    same_interval,
                    interval_hours: if same_interval {
                        a.interval_hours
                    } else {
                        None
                    },
                },
            ),
        )
    }

    /// The spread between two rates; `None` where they are for different instruments, on the same
    /// venue, or the same.
    pub fn between(a: &FundingRate, b: &FundingRate) -> (r: Option<FundingSpread>)
        requires
            FundingSpread::between_outcome(*a, *b) is Ok,
        ensures
            FundingSpread::between_outcome(*a, *b) == Ok::<Option<FundingSpread>, Overflow>(r),
            r matches Some(spread) ==> spread.rate_diff_bps.units() > 0,
    {
        match FundingSpread::checked_between(a, b) {
            Ok(spread) => spread,
            Err(_) => None,
        }
    }

    /// How many intervals it takes until the spread has paid `total_fee_bps`.
    pub fn checked_breakeven_intervals(&self, total_fee_bps: Decimal) -> (r: Result<
        Option<u32>,
        Overflow,
    >)
        ensures
            r == breakeven_outcome(self.rate_diff_bps, total_fee_bps),
    {
        checked_breakeven_intervals(self.rate_diff_bps, total_fee_bps)
    }

    /// How many intervals it takes until the spread has paid `total_fee_bps`.
    pub fn breakeven_intervals(&self, total_fee_bps: Decimal) -> (r: Option<u32>)
        requires
            breakeven_outcome(self.rate_diff_bps, total_fee_bps) is Ok,
        ensures
            breakeven_outcome(self.rate_diff_bps, total_fee_bps) == Ok::<Option<u32>, Overflow>(r),
    {
        breakeven_intervals(self.rate_diff_bps, total_fee_bps)
    }
}

/// How many intervals it takes until a difference of `rate_diff_bps` has paid `total_fee_bps`;
/// `None` where it never does, or where there are more than a `u32` can count.
pub fn checked_breakeven_intervals(rate_diff_bps: Decimal, total_fee_bps: Decimal) -> (r: Result<
    Option<u32>,
    Overflow,
>)
    ensures
        r == breakeven_outcome(rate_diff_bps, total_fee_bps),
{
    if !rate_diff_bps.is_positive() {
        return Ok(None);
    }
    if !total_fee_bps.is_positive() {
        return Ok(Some(0));
    }
    let intervals = total_fee_bps.checked_div(rate_diff_bps)?.ceil();
    let n: i128 = intervals.mantissa();
    if 0 <= n && n <= u32::MAX as i128 {
        Ok(Some(n as u32))
    } else {
        Ok(None)
    }
}

/// How many intervals it takes until a difference of `rate_diff_bps` has paid `total_fee_bps`;
/// `None` where it never does, or where there are more than a `u32` can count.
pub fn breakeven_intervals(rate_diff_bps: Decimal, total_fee_bps: Decimal) -> (r: Option<u32>)
    requires
        breakeven_outcome(rate_diff_bps, total_fee_bps) is Ok,
    ensures
        breakeven_outcome(rate_diff_bps, total_fee_bps) == Ok::<Option<u32>, Overflow>(r),
{
    match checked_breakeven_intervals(rate_diff_bps, total_fee_bps) {
        Ok(n) => n,
        Err(_) => None,
    }
}

/// An interval that is not known is never the same as another one.
pub proof fn law_unknown_interval_never_matches(a: FundingRate, b: FundingRate)
    requires
        a.interval_hours is None || b.interval_hours is None,
    ensures
        !a.shares_interval(b),
        !b.shares_interval(a),
{
}

/// Without a known interval there is no rate of a year.
pub proof fn law_unknown_interval_is_not_annualized(rate: FundingRate)
    requires
        rate.interval_hours is None,
    ensures
        rate.annualized_pct_outcome() == Ok::<Option<Decimal>, Overflow>(None),
        rate.annualized_bps_outcome() is Ok ==> rate.annualized_bps_outcome() == Ok::<
            Option<Decimal>,
            Overflow,
        >(None),
{
}

/// Where the fee is an exact multiple or part of the rate, the count of intervals is the least one
/// in which the rate pays the fee.
pub proof fn law_breakeven_is_the_least_count(rate: Decimal, fee: Decimal, q: Decimal)
    requires
        rate.units() > 0,
        fee.units() > 0,
        decimal::is_quotient(fee, rate, q),
    ensures
        intervals_needed(rate, fee) is Ok,
        ({
            let n = intervals_needed(rate, fee).unwrap();
            &&& n * rate.units() >= fee.units()
            &&& (n - 1) * rate.units() < fee.units()
        }),
{
    reveal(decimal::quotient_of);
    let c = choose|c: Decimal| decimal::is_quotient(fee, rate, c);
    decimal::lemma_quotient_unique(fee, rate, c, q);
    let t = decimal::pow10(28);
    decimal::lemma_pow10_positive(28);
    let n = -((-q.units()) / t);
    let (u, x, y) = (q.units(), rate.units(), fee.units());
    assert(n * t >= u && (n - 1) * t < u) by (nonlinear_arith)
        requires
            t > 0,
            n == -((-u) / t),
    ;
    assert(u * x == y * t);
    assert(n * x >= y) by (nonlinear_arith)
        requires
            t > 0,
            x > 0,
            n * t >= u,
            u * x == y * t,
    ;
    assert((n - 1) * x < y) by (nonlinear_arith)
        requires
            t > 0,
            x > 0,
            (n - 1) * t < u,
            u * x == y * t,
    ;
}

/// The one of two rates that is higher.
pub open spec fn higher(a: FundingRate, b: FundingRate) -> FundingRate {
    if a.current_rate.units() > b.current_rate.units() {
        a
    } else {
        b
    }
}

/// The one of two rates that is not higher.
pub open spec fn lower(a: FundingRate, b: FundingRate) -> FundingRate {
    if a.current_rate.units() > b.current_rate.units() {
        b
    } else {
        a
    }
}

/// A spread is short where the rate is higher and long where it is lower, for the instrument of both.
/// It says whether the intervals are the same, and which one it is.
pub proof fn law_higher_rate_is_sold(a: FundingRate, b: FundingRate)
    ensures
        FundingSpread::between_outcome(a, b) matches Ok(Some(s)) ==> {
            let (short, long) = (higher(a, b), lower(a, b));
            &&& s.symbol == a.symbol && s.symbol == b.symbol
            &&& s.short_dex == short.dex && s.long_dex == long.dex
            &&& s.short_dex != s.long_dex
            &&& s.same_interval <==> a.interval_hours is Some && a.interval_hours
                == b.interval_hours
            &&& s.same_interval ==> s.interval_hours == a.interval_hours
            &&& !s.same_interval ==> s.interval_hours is None
        },
        a.symbol != b.symbol || a.dex == b.dex ==> FundingSpread::between_outcome(a, b) == Ok::<
            Option<FundingSpread>,
            Overflow,
        >(None),
        a.symbol == b.symbol && a.dex != b.dex && a.current_rate.units() != b.current_rate.units()
            ==> !(FundingSpread::between_outcome(a, b) matches Ok(None)),
{
}

/// Where decimals can hold the numbers, the difference of one interval is exactly ten thousand times
/// the higher rate less the lower one.
pub proof fn law_interval_difference_is_exact(
    a: FundingRate,
    b: FundingRate,
    high_bps: Decimal,
    low_bps: Decimal,
    difference: Decimal,
)
    requires
        high_bps.valid() && high_bps.units() == 10000 * higher(a, b).current_rate.units(),
        low_bps.valid() && low_bps.units() == 10000 * lower(a, b).current_rate.units(),
        difference.valid() && difference.units() == high_bps.units() - low_bps.units(),
    ensures
        FundingSpread::between_outcome(a, b) matches Ok(Some(s)) ==> s.rate_diff_bps == difference
            && s.rate_diff_bps.units() == 10000 * (higher(a, b).current_rate.units() - lower(
            a,
            b,
        ).current_rate.units()),
{
    lemma_bps(higher(a, b), high_bps);
    lemma_bps(lower(a, b), low_bps);
    decimal::law_difference_is_exact(high_bps, low_bps, difference);
}

proof fn lemma_bps(rate: FundingRate, bps: Decimal)
    requires
        bps.valid() && bps.units() == 10000 * rate.current_rate.units(),
    ensures
        rate.rate_bps_outcome() == Ok::<Decimal, Overflow>(bps),
{
    let t = decimal::pow10(28);
    decimal::lemma_decimal_fields(bps, 10000);
    let r = rate.current_rate.units();
    assert((10000 * r) * t == r * (10000 * t)) by (nonlinear_arith);
    decimal::law_product_is_exact(rate.current_rate, num::bps_per_one(), bps);
}

/// The difference of a year is the yearly rate of the side that is short less that of the side that is
/// long, whether or not the intervals are the same; there is none where either yearly rate is not
/// known.
pub proof fn law_yearly_difference_is_short_less_long(a: FundingRate, b: FundingRate)
    ensures
        FundingSpread::between_outcome(a, b) matches Ok(Some(s)) ==> match (
            higher(a, b).annualized_bps_outcome(),
            lower(a, b).annualized_bps_outcome(),
        ) {
            (Ok(Some(short)), Ok(Some(long))) => s.annualized_diff_bps matches Some(d)
                && decimal::difference_of(short, long) == Ok::<Decimal, Overflow>(d) && (
            decimal::expressible(short.units() - long.units()) ==> d.units() == short.units()
                - long.units()),
            (Ok(_), Ok(_)) => s.annualized_diff_bps is None,
            _ => false,
        },
{
    reveal(decimal::difference_of);
}

/// Whether `per_year` is exactly how many intervals of `hours` a year has, with every number on the
/// way a decimal.
pub open spec fn is_count_per_year(hours: Decimal, per_year: Decimal) -> bool {
    &&& hours.units() > 0
    &&& per_year.valid()
    &&& exists|per_day: Decimal|
        per_day.valid() && #[trigger] per_day.units() * hours.units() == 24 * decimal::pow10(28)
            * decimal::pow10(28) && per_year.units() == 365 * per_day.units()
}

/// Where decimals can hold the numbers on the way, a year has 8760 hours' worth of intervals, and the
/// rate of a year is the rate times their count: in basis points ten thousand times that, in per cent
/// a hundred times.
pub proof fn law_yearly_rates_are_exact(
    rate: FundingRate,
    hours: Decimal,
    per_year: Decimal,
    yearly: Decimal,
    pct: Decimal,
    bps: Decimal,
    yearly_bps: Decimal,
)
    requires
        rate.interval_hours == Some(hours),
        is_count_per_year(hours, per_year),
        yearly.valid() && yearly.units() * decimal::pow10(28) == rate.current_rate.units()
            * per_year.units(),
        pct.valid() && pct.units() == 100 * yearly.units(),
        bps.valid() && bps.units() == 10000 * rate.current_rate.units(),
        yearly_bps.valid() && yearly_bps.units() == 10000 * yearly.units(),
    ensures
        rate.intervals_outcome() == Ok::<Option<Decimal>, Overflow>(Some(per_year)),
        per_year.units() * hours.units() == 8760 * decimal::pow10(28) * decimal::pow10(28),
        rate.annualized_pct_outcome() == Ok::<Option<Decimal>, Overflow>(Some(pct)),
        rate.annualized_bps_outcome() == Ok::<Option<Decimal>, Overflow>(Some(yearly_bps)),
        yearly_bps.units() == 100 * pct.units(),
        pct.units() * hours.units() == 876000 * rate.current_rate.units() * decimal::pow10(28),
{
    let t = decimal::pow10(28);
    decimal::lemma_pow10_positive(28);
    let (r, h, n, y) = (
        rate.current_rate.units(),
        hours.units(),
        per_year.units(),
        yearly.units(),
    );
    lemma_count_per_year(rate, hours, per_year);
    decimal::law_product_is_exact(rate.current_rate, per_year, yearly);
    decimal::lemma_decimal_fields(yearly, 100);
    assert((100 * y) * t == y * (100 * t)) by (nonlinear_arith);
    decimal::law_product_is_exact(yearly, Decimal::whole(100), pct);
    lemma_bps(rate, bps);
    assert((10000 * y) * t == (10000 * r) * n) by (nonlinear_arith)
        requires
            y * t == r * n,
    ;
    decimal::law_product_is_exact(bps, per_year, yearly_bps);
    assert((100 * y) * h == 876000 * r * t) by (nonlinear_arith)
        requires
            y * t == r * n,
            n * h == 8760 * t * t,
            t > 0,
    ;
}

proof fn lemma_count_per_year(rate: FundingRate, hours: Decimal, per_year: Decimal)
    requires
        rate.interval_hours == Some(hours),
        is_count_per_year(hours, per_year),
    ensures
        rate.intervals_outcome() == Ok::<Option<Decimal>, Overflow>(Some(per_year)),
        per_year.units() * hours.units() == 8760 * decimal::pow10(28) * decimal::pow10(28),
{
    let t = decimal::pow10(28);
    let per_day = choose|per_day: Decimal|
        per_day.valid() && #[trigger] per_day.units() * hours.units() == 24 * decimal::pow10(28)
            * decimal::pow10(28) && per_year.units() == 365 * per_day.units();
    let (d, h, n) = (per_day.units(), hours.units(), per_year.units());
    decimal::lemma_decimal_fields(hours, 24);
    decimal::lemma_decimal_fields(hours, 365);
    decimal::law_quotient_is_exact(Decimal::whole(24), hours, per_day);
    assert(n * t == d * (365 * t)) by (nonlinear_arith)
        requires
            n == 365 * d,
    ;
    decimal::law_product_is_exact(per_day, Decimal::whole(365), per_year);
    assert(n * h == 8760 * t * t) by (nonlinear_arith)
        requires
            n == 365 * d,
            d * h == 24 * t * t,
    ;
}

/// Where both rates have the same known interval and decimals can hold the numbers on the way, the
/// difference of a year is the difference of one interval times the count of intervals in a year.
pub proof fn law_yearly_difference_of_one_interval(
    a: FundingRate,
    b: FundingRate,
    hours: Decimal,
    per_year: Decimal,
    high_bps: Decimal,
    low_bps: Decimal,
    difference: Decimal,
    high_yearly: Decimal,
    low_yearly: Decimal,
    yearly: Decimal,
)
    requires
        a.interval_hours == Some(hours),
        b.interval_hours == Some(hours),
        is_count_per_year(hours, per_year),
        high_bps.valid() && high_bps.units() == 10000 * higher(a, b).current_rate.units(),
        low_bps.valid() && low_bps.units() == 10000 * lower(a, b).current_rate.units(),
        difference.valid() && difference.units() == high_bps.units() - low_bps.units(),
        decimal::is_product(high_bps, per_year, high_yearly),
        decimal::is_product(low_bps, per_year, low_yearly),
        yearly.valid() && yearly.units() == high_yearly.units() - low_yearly.units(),
    ensures
        FundingSpread::between_outcome(a, b) matches Ok(Some(s)) ==> s.annualized_diff_bps == Some(
            yearly,
        ) && yearly.units() * decimal::pow10(28) == s.rate_diff_bps.units() * per_year.units(),
{
    let (short, long) = (higher(a, b), lower(a, b));
    let t = decimal::pow10(28);
    lemma_count_per_year(short, hours, per_year);
    lemma_count_per_year(long, hours, per_year);
    lemma_bps(short, high_bps);
    lemma_bps(long, low_bps);
    decimal::law_product_is_exact(high_bps, per_year, high_yearly);
    decimal::law_product_is_exact(low_bps, per_year, low_yearly);
    decimal::law_difference_is_exact(high_yearly, low_yearly, yearly);
    law_interval_difference_is_exact(a, b, high_bps, low_bps, difference);
    let (x, y, n) = (high_bps.units(), low_bps.units(), per_year.units());
    let (p, q) = (high_yearly.units(), low_yearly.units());
    assert((p - q) * t == (x - y) * n) by (nonlinear_arith)
        requires
            p * t == x * n,
            q * t == y * n,
    ;
}

/// A yearly rate is known exactly where the interval is known and positive: else there is none, in
/// per cent or in basis points.
pub proof fn law_yearly_rate_needs_an_interval(rate: FundingRate)
    ensures
        ({
            let known = rate.interval_hours matches Some(hours) && hours.units() > 0;
            &&& !known ==> rate.intervals_outcome() == Ok::<Option<Decimal>, Overflow>(None)
            &&& !known ==> rate.annualized_pct_outcome() == Ok::<Option<Decimal>, Overflow>(None)
            &&& !known ==> (rate.annualized_bps_outcome() matches Ok(bps) ==> bps is None)
            &&& known ==> !(rate.intervals_outcome() matches Ok(None))
            &&& known ==> !(rate.annualized_pct_outcome() matches Ok(None))
            &&& known ==> !(rate.annualized_bps_outcome() matches Ok(None))
        }),
{
}

/// A difference that is not above zero never pays a fee; no fee is paid at once. Where the fee over the
/// difference is a decimal, the count is the least one in which the difference pays the fee, and there
/// is none only where that is more than can be counted.
pub proof fn law_breakeven_pays_the_fee(rate: Decimal, fee: Decimal, q: Decimal)
    ensures
        rate.units() <= 0 ==> breakeven_outcome(rate, fee) == Ok::<Option<u32>, Overflow>(None),
        rate.units() > 0 && fee.units() <= 0 ==> breakeven_outcome(rate, fee) == Ok::<
            Option<u32>,
            Overflow,
        >(Some(0)),
        rate.units() > 0 && fee.units() > 0 && decimal::is_quotient(fee, rate, q) ==> match
            breakeven_outcome(rate, fee) {
            Ok(Some(n)) => n * rate.units() >= fee.units() && (n - 1) * rate.units() < fee.units(),
            Ok(None) => u32::MAX * rate.units() < fee.units(),
            Err(_) => false,
        },
{
    if rate.units() > 0 && fee.units() > 0 && decimal::is_quotient(fee, rate, q) {
        law_breakeven_is_the_least_count(rate, fee, q);
        let n = intervals_needed(rate, fee).unwrap();
        let (r, f) = (rate.units(), fee.units());
        assert(n > 0) by (nonlinear_arith)
            requires
                n * r >= f,
                r > 0,
                f > 0,
        ;
        if n > u32::MAX {
            assert(u32::MAX * r < f) by (nonlinear_arith)
                requires
                    n - 1 >= u32::MAX,
                    (n - 1) * r < f,
                    r > 0,
            ;
        }
    }
}

/// The figures on liquidity are those that came with the rate, and the price by which the open
/// interest is valued is the mark price, or else the index price.
pub proof fn law_figures_are_those_of_the_rate(rate: FundingRate)
    ensures
        ({
            let stats = rate.stats_of();
            &&& stats.dex == rate.dex && stats.symbol == rate.symbol
            &&& stats.open_interest == rate.open_interest
            &&& stats.volume_24h_usd == rate.volume_24h_usd
            &&& rate.mark_price is Some ==> stats.reference_price == rate.mark_price
            &&& rate.mark_price is None ==> stats.reference_price == rate.index_price
            &&& stats.trace == rate.trace
        }),
{
}

} // verus!
