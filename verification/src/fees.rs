//! Fees.
//!
//! There are no fees by default: a profit worked out with a fee that nobody has looked up would be
//! no profit. A pair with a venue whose fees are not set is passed over.

use vstd::prelude::*;

use crate::by_dex::ByDex;
use crate::decimal;
use crate::decimal::{Decimal, Overflow};
use crate::symbol::Dex;

verus! {

/// The fees of one venue, in basis points.
#[derive(Clone, Copy, Debug, PartialEq, Eq, Structural)]
pub struct DexFees {
    /// For an order that takes liquidity.
    pub taker_bps: Decimal,
    /// For an order that adds liquidity; negative where the venue pays for it.
    pub maker_bps: Decimal,
}

/// How an order is executed.
#[derive(Clone, Copy, Debug, PartialEq, Eq, Structural)]
pub enum ExecutionStyle {
    /// It takes liquidity.
    Taker,
    /// It adds liquidity. It may stay unfilled.
    Maker,
}

/// The fees of the venues.
pub struct FeeSchedule {
    fees: ByDex<DexFees>,
}

impl View for FeeSchedule {
    type V = Map<Dex, DexFees>;

    closed spec fn view(&self) -> Map<Dex, DexFees> {
        self.fees@
    }
}

/// The fee of `style`.
pub open spec fn fee_of(fees: DexFees, style: ExecutionStyle) -> Decimal {
    match style {
        ExecutionStyle::Taker => fees.taker_bps,
        ExecutionStyle::Maker => fees.maker_bps,
    }
}

/// The fee for opening a position on both venues; nothing where one has no fees.
pub open spec fn entry_outcome(
    fees: Map<Dex, DexFees>,
    long_dex: Dex,
    short_dex: Dex,
    style: ExecutionStyle,
) -> Result<Option<Decimal>, Overflow> {
    if fees.contains_key(long_dex) && fees.contains_key(short_dex) {
        match decimal::sum_of(fee_of(fees[long_dex], style), fee_of(fees[short_dex], style)) {
            Ok(bps) => Ok(Some(bps)),
            Err(e) => Err(e),
        }
    } else {
        Ok(None)
    }
}

/// The fee for opening and closing a position on both venues; nothing where one has no fees.
pub open spec fn round_trip_outcome(
    fees: Map<Dex, DexFees>,
    long_dex: Dex,
    short_dex: Dex,
    entry_style: ExecutionStyle,
    exit_style: ExecutionStyle,
) -> Result<Option<Decimal>, Overflow> {
    match (
        entry_outcome(fees, long_dex, short_dex, entry_style),
        entry_outcome(fees, long_dex, short_dex, exit_style),
    ) {
        (Ok(Some(entry)), Ok(Some(exit))) => match decimal::sum_of(entry, exit) {
            Ok(bps) => Ok(Some(bps)),
            Err(e) => Err(e),
        },
        (Err(e), _) => Err(e),
        (_, Err(e)) => Err(e),
        _ => Ok(None),
    }
}

impl FeeSchedule {
    /// A schedule without fees.
    pub fn new() -> (r: FeeSchedule)
        ensures
            r@ == Map::<Dex, DexFees>::empty(),
    {
        FeeSchedule { fees: ByDex::new() }
    }

    /// The schedule with the given fees.
    pub fn from_map(fees: ByDex<DexFees>) -> (r: FeeSchedule)
        ensures
            r@ == fees@,
    {
        FeeSchedule { fees }
    }

    /// Sets the fees of a venue.
    pub fn insert(&mut self, dex: Dex, fees: DexFees)
        ensures
            final(self)@ == old(self)@.insert(dex, fees),
    {
        self.fees.set(dex, fees);
    }

    /// The fees of a venue; `None` where they are not set.
    pub fn get(&self, dex: Dex) -> (r: Option<DexFees>)
        ensures
            r == if self@.contains_key(dex) {
                Some(self@[dex])
            } else {
                None
            },
    {
        match self.fees.get(dex) {
            Some(fees) => Some(*fees),
            None => None,
        }
    }

    /// Whether no fees are set.
    pub fn is_empty(&self) -> (r: bool)
        ensures
            r == (self@ == Map::<Dex, DexFees>::empty()),
    {
        self.fees.is_empty()
    }

    /// The venues among `dexes` whose fees are not set, in their order.
    pub fn missing(&self, dexes: &[Dex]) -> (r: Vec<Dex>)
        ensures
            r@ == dexes@.filter(|d: Dex| !self@.contains_key(d)),
    {
        let mut out: Vec<Dex> = Vec::new();
        let n: usize = dexes.len();
        let mut i: usize = 0;
        let ghost unset = |d: Dex| !self@.contains_key(d);
        proof {
            reveal(Seq::filter);
            assert(dexes@.take(0).filter(unset) =~= Seq::<Dex>::empty());
        }
        while i < n
            invariant
                i <= n,
                n == dexes@.len(),
                unset == (|d: Dex| !self@.contains_key(d)),
                out@ == dexes@.take(i as int).filter(unset),
            decreases n - i,
        {
            proof {
                reveal(Seq::filter);
                assert(dexes@.take(i + 1).drop_last() =~= dexes@.take(i as int));
                assert(dexes@.take(i + 1).last() == dexes@[i as int]);
            }
            if self.get(dexes[i]).is_none() {
                out.push(dexes[i]);
            }
            i += 1;
        }
        proof {
            assert(dexes@.take(n as int) =~= dexes@);
        }
        out
    }

    fn rate(&self, dex: Dex, style: ExecutionStyle) -> (r: Option<Decimal>)
        ensures
            r == if self@.contains_key(dex) {
                Some(fee_of(self@[dex], style))
            } else {
                None
            },
    {
        match self.get(dex) {
            Some(fees) => Some(
                match style {
                    ExecutionStyle::Taker => fees.taker_bps,
                    ExecutionStyle::Maker => fees.maker_bps,
                },
            ),
            None => None,
        }
    }

    /// The fee for opening a position on both venues; `None` where one has no fees.
    pub fn checked_entry_bps(&self, long_dex: Dex, short_dex: Dex, style: ExecutionStyle) -> (r:
        Result<Option<Decimal>, Overflow>)
        ensures
            r == entry_outcome(self@, long_dex, short_dex, style),
    {
        match (self.rate(long_dex, style), self.rate(short_dex, style)) {
            (Some(long), Some(short)) => {
                let bps = long.checked_add(short)?;
                Ok(Some(bps))
            },
            _ => Ok(None),
        }
    }

    /// The fee for opening a position on both venues; `None` where one has no fees.
    pub fn entry_bps(&self, long_dex: Dex, short_dex: Dex, style: ExecutionStyle) -> (r: Option<
        Decimal,
    >)
        requires
            entry_outcome(self@, long_dex, short_dex, style) is Ok,
        ensures
            entry_outcome(self@, long_dex, short_dex, style) == Ok::<Option<Decimal>, Overflow>(r),
    {
        match self.checked_entry_bps(long_dex, short_dex, style) {
            Ok(bps) => bps,
            Err(_) => None,
        }
    }

    /// The fee for opening and closing a position on both venues; `None` where one has no fees. A
    /// position is mostly closed by taking liquidity, so the two styles are given apart.
    pub fn checked_round_trip_bps(
        &self,
        long_dex: Dex,
        short_dex: Dex,
        entry_style: ExecutionStyle,
        exit_style: ExecutionStyle,
    ) -> (r: Result<Option<Decimal>, Overflow>)
        ensures
            r == round_trip_outcome(self@, long_dex, short_dex, entry_style, exit_style),
    {
        let entry = self.checked_entry_bps(long_dex, short_dex, entry_style)?;
        let exit = self.checked_entry_bps(long_dex, short_dex, exit_style)?;
        match (entry, exit) {
            (Some(entry), Some(exit)) => {
                let bps = entry.checked_add(exit)?;
                Ok(Some(bps))
            },
            _ => Ok(None),
        }
    }

    /// The fee for opening and closing a position on both venues; `None` where one has no fees.
    pub fn round_trip_bps(
        &self,
        long_dex: Dex,
        short_dex: Dex,
        entry_style: ExecutionStyle,
        exit_style: ExecutionStyle,
    ) -> (r: Option<Decimal>)
        requires
            round_trip_outcome(self@, long_dex, short_dex, entry_style, exit_style) is Ok,
        ensures
            round_trip_outcome(self@, long_dex, short_dex, entry_style, exit_style) == Ok::<
                Option<Decimal>,
                Overflow,
            >(r),
    {
        match self.checked_round_trip_bps(long_dex, short_dex, entry_style, exit_style) {
            Ok(bps) => bps,
            Err(_) => None,
        }
    }
}

/// A venue whose fees are not set has no fee for a pair: such a pair is passed over.
pub proof fn law_unset_fees_give_no_fee(
    fees: Map<Dex, DexFees>,
    long_dex: Dex,
    short_dex: Dex,
    entry_style: ExecutionStyle,
    exit_style: ExecutionStyle,
)
    requires
        !fees.contains_key(long_dex) || !fees.contains_key(short_dex),
    ensures
        entry_outcome(fees, long_dex, short_dex, entry_style) == Ok::<Option<Decimal>, Overflow>(
            None,
        ),
        round_trip_outcome(fees, long_dex, short_dex, entry_style, exit_style) == Ok::<
            Option<Decimal>,
            Overflow,
        >(None),
{
}

/// The fee for opening a position is the sum of the fees of the two venues in the given style, and
/// that for opening and closing it the sum of all four, exactly where decimals can hold the sums.
pub proof fn law_fees_add_up(
    fees: Map<Dex, DexFees>,
    long_dex: Dex,
    short_dex: Dex,
    entry_style: ExecutionStyle,
    exit_style: ExecutionStyle,
    entry: Decimal,
    exit: Decimal,
    both: Decimal,
)
    requires
        fees.contains_key(long_dex),
        fees.contains_key(short_dex),
        entry.valid(),
        exit.valid(),
        both.valid(),
        entry.units() == if entry_style == ExecutionStyle::Taker {
            fees[long_dex].taker_bps.units() + fees[short_dex].taker_bps.units()
        } else {
            fees[long_dex].maker_bps.units() + fees[short_dex].maker_bps.units()
        },
        exit.units() == if exit_style == ExecutionStyle::Taker {
            fees[long_dex].taker_bps.units() + fees[short_dex].taker_bps.units()
        } else {
            fees[long_dex].maker_bps.units() + fees[short_dex].maker_bps.units()
        },
        both.units() == entry.units() + exit.units(),
    ensures
        entry_outcome(fees, long_dex, short_dex, entry_style) == Ok::<Option<Decimal>, Overflow>(
            Some(entry),
        ),
        round_trip_outcome(fees, long_dex, short_dex, entry_style, exit_style) == Ok::<
            Option<Decimal>,
            Overflow,
        >(Some(both)),
{
    let (l, s) = (fees[long_dex], fees[short_dex]);
    decimal::law_sum_is_exact(fee_of(l, entry_style), fee_of(s, entry_style), entry);
    decimal::law_sum_is_exact(fee_of(l, exit_style), fee_of(s, exit_style), exit);
    decimal::law_sum_is_exact(entry, exit, both);
}

} // verus!
