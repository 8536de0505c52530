//! Figures on liquidity: open interest and volume.
//!
//! Open interest is counted in contracts, volume in US dollars. The two are compared only once the
//! open interest has been turned into dollars, by a price; without a price nothing is made up.

use vstd::prelude::*;

use crate::decimal;
use crate::decimal::{Decimal, Overflow};
use crate::num::{Price, Quantity};
use crate::symbol::{Dex, Symbol};
use crate::trace::MessageTrace;

verus! {

/// The figures of one instrument on one venue.
#[derive(Clone, Copy, Debug, PartialEq, Eq, Structural)]
pub struct MarketStats {
    pub dex: Dex,
    pub symbol: Symbol,
    /// The open interest, in contracts.
    pub open_interest: Option<Quantity>,
    /// The volume of 24 hours, in US dollars.
    pub volume_24h_usd: Option<Decimal>,
    /// The price by which the open interest is turned into dollars.
    pub reference_price: Option<Price>,
    pub trace: MessageTrace,
}

impl MarketStats {
    /// The open interest in dollars, where there is a positive price.
    pub open spec fn open_interest_usd_outcome(self) -> Result<Option<Decimal>, Overflow> {
        match (self.open_interest, self.reference_price) {
            (Some(interest), Some(price)) => if price.0.units() <= 0 {
                Ok(None)
            } else {
                match decimal::product_of(interest.0, price.0) {
                    Ok(usd) => Ok(Some(usd)),
                    Err(e) => Err(e),
                }
            },
            _ => Ok(None),
        }
    }

    /// The volume over the open interest, both in dollars, where the latter is positive.
    pub open spec fn volume_oi_ratio_outcome(self) -> Result<Option<Decimal>, Overflow> {
        match self.volume_24h_usd {
            Some(volume) => match self.open_interest_usd_outcome() {
                Ok(Some(interest)) => if interest.units() <= 0 {
                    Ok(None)
                } else {
                    match decimal::quotient_of(volume, interest) {
                        Ok(ratio) => Ok(Some(ratio)),
                        Err(e) => Err(e),
                    }
                },
                Ok(None) => Ok(None),
                Err(e) => Err(e),
            },
            None => Ok(None),
        }
    }

    /// Whether there is any figure.
    pub fn has_any(&self) -> (r: bool)
        ensures
            r == (self.open_interest is Some || self.volume_24h_usd is Some),
    {
        self.open_interest.is_some() || self.volume_24h_usd.is_some()
    }

    /// The open interest in dollars; `None` without a positive price.
    pub fn checked_open_interest_usd(&self) -> (r: Result<Option<Decimal>, Overflow>)
        ensures
            r == self.open_interest_usd_outcome(),
    {
        match (self.open_interest, self.reference_price) {
            (Some(interest), Some(price)) => {
                if !price.is_positive() {
                    return Ok(None);
                }
                let usd = interest.0.checked_mul(price.0)?;
                Ok(Some(usd))
            },
            _ => Ok(None),
        }
    }

    /// The open interest in dollars; `None` without a positive price.
    pub fn open_interest_usd(&self) -> (r: Option<Decimal>)
        requires
            self.open_interest_usd_outcome() is Ok,
        ensures
            self.open_interest_usd_outcome() == Ok::<Option<Decimal>, Overflow>(r),
    {
        match self.checked_open_interest_usd() {
            Ok(usd) => usd,
            Err(_) => None,
        }
    }

    /// The volume over the open interest, both in dollars; `None` where one is not known or the
    /// open interest is not positive. A high ratio hints at trades made for their own sake.
    pub fn checked_volume_oi_ratio(&self) -> (r: Result<Option<Decimal>, Overflow>)
        ensures
            r == self.volume_oi_ratio_outcome(),
    {
        match self.volume_24h_usd {
            Some(volume) => match self.checked_open_interest_usd()? {
                Some(interest) => {
                    if !interest.is_positive() {
                        return Ok(None);
                    }
                    let ratio = volume.checked_div(interest)?;
                    Ok(Some(ratio))
                },
                None => Ok(None),
            },
            None => Ok(None),
        }
    }

    /// The volume over the open interest, both in dollars; `None` where one is not known or the
    /// open interest is not positive.
    pub fn volume_oi_ratio(&self) -> (r: Option<Decimal>)
        requires
            self.volume_oi_ratio_outcome() is Ok,
        ensures
            self.volume_oi_ratio_outcome() == Ok::<Option<Decimal>, Overflow>(r),
    {
        match self.checked_volume_oi_ratio() {
            Ok(ratio) => ratio,
            Err(_) => None,
        }
    }
}

/// The open interest in dollars is the count of contracts times the price, exactly where a decimal can
/// hold it; without a price above zero there is none.
pub proof fn law_open_interest_is_valued_at_the_price(stats: MarketStats, usd: Decimal)
    ensures
        match (stats.open_interest, stats.reference_price) {
            (Some(interest), Some(price)) => {
                &&& price.0.units() <= 0 ==> stats.open_interest_usd_outcome() == Ok::<
                    Option<Decimal>,
                    Overflow,
                >(None)
                &&& price.0.units() > 0 ==> !(stats.open_interest_usd_outcome() matches Ok(None))
                &&& price.0.units() > 0 && usd.valid() && usd.units() * decimal::pow10(28)
                    == interest.0.units() * price.0.units() ==> stats.open_interest_usd_outcome()
                    == Ok::<Option<Decimal>, Overflow>(Some(usd))
            },
            _ => stats.open_interest_usd_outcome() == Ok::<Option<Decimal>, Overflow>(None),
        },
{
    if let (Some(interest), Some(price)) = (stats.open_interest, stats.reference_price) {
        if usd.valid() && usd.units() * decimal::pow10(28) == interest.0.units()
            * price.0.units() {
            decimal::law_product_is_exact(interest.0, price.0, usd);
        }
    }
}

/// The ratio times the open interest in dollars is the volume, where decimals can hold the numbers;
/// without a volume, or without an open interest above zero, there is no ratio.
pub proof fn law_ratio_is_volume_over_open_interest(
    stats: MarketStats,
    interest: Decimal,
    ratio: Decimal,
)
    ensures
        stats.volume_24h_usd is None ==> stats.volume_oi_ratio_outcome() == Ok::<
            Option<Decimal>,
            Overflow,
        >(None),
        stats.open_interest_usd_outcome() == Ok::<Option<Decimal>, Overflow>(None)
            ==> stats.volume_oi_ratio_outcome() == Ok::<Option<Decimal>, Overflow>(None),
        stats.open_interest_usd_outcome() == Ok::<Option<Decimal>, Overflow>(Some(interest))
            && interest.units() <= 0 ==> stats.volume_oi_ratio_outcome() == Ok::<
            Option<Decimal>,
            Overflow,
        >(None),
        stats.open_interest_usd_outcome() == Ok::<Option<Decimal>, Overflow>(Some(interest))
            && interest.units() > 0 ==> (stats.volume_24h_usd matches Some(volume)
            ==> !(stats.volume_oi_ratio_outcome() matches Ok(None)) && (ratio.valid()
            && ratio.units() * interest.units() == volume.units() * decimal::pow10(28)
            ==> stats.volume_oi_ratio_outcome() == Ok::<Option<Decimal>, Overflow>(Some(ratio)))),
{
    if let Some(volume) = stats.volume_24h_usd {
        if interest.units() > 0 && ratio.valid() && ratio.units() * interest.units()
            == volume.units() * decimal::pow10(28) {
            decimal::law_quotient_is_exact(volume, interest, ratio);
        }
    }
}

} // verus!
