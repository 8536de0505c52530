//! The latest funding rates.

use vstd::prelude::*;

use crate::decimal::Overflow;
use crate::funding::{FundingRate, FundingSpread};
use crate::latest::Latest;
use crate::symbol::{Dex, Symbol};

verus! {

/// The latest funding rate of each venue and instrument.
pub struct FundingStore {
    rates: Latest<FundingRate>,
}

impl View for FundingStore {
    type V = Map<(Dex, Symbol), FundingRate>;

    closed spec fn view(&self) -> Map<(Dex, Symbol), FundingRate> {
        self.rates@
    }
}

/// The spread between the rates of two venues, where both are there.
pub open spec fn stored_spread(
    rates: Map<(Dex, Symbol), FundingRate>,
    symbol: Symbol,
    pair: (Dex, Dex),
) -> Result<Option<FundingSpread>, Overflow> {
    if rates.contains_key((pair.0, symbol)) && rates.contains_key((pair.1, symbol)) {
        FundingSpread::between_outcome(rates[(pair.0, symbol)], rates[(pair.1, symbol)])
    } else {
        Ok(None)
    }
}

/// The spreads of `pairs`, in their order; a pair that has none is passed over.
pub open spec fn stored_spreads(
    rates: Map<(Dex, Symbol), FundingRate>,
    symbol: Symbol,
    pairs: Seq<(Dex, Dex)>,
) -> Result<Seq<FundingSpread>, Overflow>
    decreases pairs.len(),
{
    if pairs.len() == 0 {
        Ok(Seq::empty())
    } else {
        match stored_spreads(rates, symbol, pairs.drop_last()) {
            Ok(spreads) => match stored_spread(rates, symbol, pairs.last()) {
                Ok(Some(spread)) => Ok(spreads.push(spread)),
                Ok(None) => Ok(spreads),
                Err(e) => Err(e),
            },
            Err(e) => Err(e),
        }
    }
}

impl FundingStore {
    /// Whether the store is in order.
    pub closed spec fn wf(self) -> bool {
        self.rates.wf()
    }

    /// A store without rates.
    pub fn new() -> (r: FundingStore)
        ensures
            r.wf(),
            r@ == Map::<(Dex, Symbol), FundingRate>::empty(),
    {
        FundingStore { rates: Latest::new() }
    }

    /// Takes `rate` as the latest of its venue and instrument.
    pub fn update(&mut self, rate: FundingRate)
        requires
            old(self).wf(),
        ensures
            final(self).wf(),
            final(self)@ == old(self)@.insert((rate.dex, rate.symbol), rate),
    {
        self.rates.set(rate.dex, rate.symbol, rate);
    }

    /// The latest rate.
    pub fn get(&self, dex: Dex, symbol: Symbol) -> (r: Option<FundingRate>)
        requires
            self.wf(),
        ensures
            r == if self@.contains_key((dex, symbol)) {
                Some(self@[(dex, symbol)])
            } else {
                None
            },
    {
        match self.rates.get(dex, symbol) {
            Some(rate) => Some(*rate),
            None => None,
        }
    }

    /// How many rates are there: at most one for each pair of a venue and an instrument.
    pub fn len(&self) -> (r: usize)
        requires
            self.wf(),
        ensures
            r == self@.len(),
            r <= 20,
    {
        self.rates.len()
    }

    /// Whether no rate is there.
    pub fn is_empty(&self) -> (r: bool)
        requires
            self.wf(),
        ensures
            r == (self@.len() == 0),
    {
        self.rates.len() == 0
    }

    /// The spread between the rates of two venues.
    pub fn checked_spread(&self, symbol: Symbol, dex_a: Dex, dex_b: Dex) -> (r: Result<
        Option<FundingSpread>,
        Overflow,
    >)
        requires
            self.wf(),
        ensures
            r == stored_spread(self@, symbol, (dex_a, dex_b)),
            r == stored_spread(self@, symbol, (dex_b, dex_a)),
    {
        match (self.rates.get(dex_a, symbol), self.rates.get(dex_b, symbol)) {
            (Some(a), Some(b)) => FundingSpread::checked_between(a, b),
            _ => Ok(None),
        }
    }

    /// The spread between the rates of two venues; `None` where one of them has not come in, or
    /// where there is none.
    pub fn spread(&self, symbol: Symbol, dex_a: Dex, dex_b: Dex) -> (r: Option<FundingSpread>)
        requires
            self.wf(),
            stored_spread(self@, symbol, (dex_a, dex_b)) is Ok,
        ensures
            stored_spread(self@, symbol, (dex_a, dex_b)) == Ok::<Option<FundingSpread>, Overflow>(
                r,
            ),
    {
        match self.checked_spread(symbol, dex_a, dex_b) {
            Ok(spread) => spread,
            Err(_) => None,
        }
    }

    /// The spreads of `pairs`. A pair without its two rates is passed over.
    pub fn checked_spreads(&self, symbol: Symbol, pairs: &[(Dex, Dex)]) -> (r: Result<
        Vec<FundingSpread>,
        Overflow,
    >)
        requires
            self.wf(),
        ensures
            r is Ok <==> stored_spreads(self@, symbol, pairs@) is Ok,
            r matches Ok(spreads) ==> stored_spreads(self@, symbol, pairs@) == Ok::<
                Seq<FundingSpread>,
                Overflow,
            >(spreads@),
    {
        let n: usize = pairs.len();
        let mut out: Vec<FundingSpread> = Vec::new();
        let mut i: usize = 0;
        proof {
            assert(out@ =~= Seq::<FundingSpread>::empty());
        }
        while i < n
            invariant
                self.wf(),
                i <= n,
                n == pairs@.len(),
                stored_spreads(self@, symbol, pairs@.take(i as int)) == Ok::<
                    Seq<FundingSpread>,
                    Overflow,
                >(out@),
            decreases n - i,
        {
            let pair = pairs[i];
            proof {
                assert(pairs@.take(i + 1).drop_last() =~= pairs@.take(i as int));
                assert(pairs@.take(i + 1).last() == pair);
            }
            match self.checked_spread(symbol, pair.0, pair.1) {
                Ok(Some(spread)) => {
                    out.push(spread);
                },
                Ok(None) => {},
                Err(e) => {
                    proof {
                        lemma_failed_prefix(self@, symbol, pairs@, i + 1);
                    }
                    return Err(e);
                },
            }
            i += 1;
        }
        proof {
            assert(pairs@.take(n as int) =~= pairs@);
        }
        Ok(out)
    }

    /// The spreads of `pairs`. A pair without its two rates is passed over.
    pub fn spreads(&self, symbol: Symbol, pairs: &[(Dex, Dex)]) -> (r: Vec<FundingSpread>)
        requires
            self.wf(),
            stored_spreads(self@, symbol, pairs@) is Ok,
        ensures
            stored_spreads(self@, symbol, pairs@) == Ok::<Seq<FundingSpread>, Overflow>(r@),
    {
        match self.checked_spreads(symbol, pairs) {
            Ok(spreads) => spreads,
            Err(_) => Vec::new(),
        }
    }
}

proof fn lemma_failed_prefix(
    rates: Map<(Dex, Symbol), FundingRate>,
    symbol: Symbol,
    pairs: Seq<(Dex, Dex)>,
    n: int,
)
    requires
        0 <= n <= pairs.len(),
        stored_spreads(rates, symbol, pairs.take(n)) is Err,
    ensures
        stored_spreads(rates, symbol, pairs) is Err,
    decreases pairs.len() - n,
{
    if n < pairs.len() {
        assert(pairs.take(n + 1).drop_last() =~= pairs.take(n));
        lemma_failed_prefix(rates, symbol, pairs, n + 1);
    } else {
        assert(pairs.take(n) =~= pairs);
    }
}

/// A rate that was taken is read back until another of its venue and instrument comes in; the
/// rates of other venues and instruments stay as they are.
pub proof fn law_latest_rate_is_read_back(
    rates: Map<(Dex, Symbol), FundingRate>,
    rate: FundingRate,
    dex: Dex,
    symbol: Symbol,
)
    ensures
        ({
            let after = rates.insert((rate.dex, rate.symbol), rate);
            &&& after[(rate.dex, rate.symbol)] == rate
            &&& (dex, symbol) != (rate.dex, rate.symbol) ==> (after.contains_key((dex, symbol))
                == rates.contains_key((dex, symbol)) && after[(dex, symbol)] == rates[(
                dex,
                symbol,
            )])
        }),
{
}

/// Where both rates of a pair are there, the spread is the one between them; where one is not, there
/// is none.
pub proof fn law_stored_rates_are_compared(
    rates: Map<(Dex, Symbol), FundingRate>,
    symbol: Symbol,
    pair: (Dex, Dex),
)
    ensures
        rates.contains_key((pair.0, symbol)) && rates.contains_key((pair.1, symbol))
            ==> stored_spread(rates, symbol, pair) == FundingSpread::between_outcome(
            rates[(pair.0, symbol)],
            rates[(pair.1, symbol)],
        ),
        !rates.contains_key((pair.0, symbol)) || !rates.contains_key((pair.1, symbol))
            ==> stored_spread(rates, symbol, pair) == Ok::<Option<FundingSpread>, Overflow>(None),
{
}

/// The spreads of a list of pairs are those of its parts, one behind the other: none is left out, and
/// none comes twice, however long the list is.
pub proof fn law_spreads_of_parts_stand_one_behind_the_other(
    rates: Map<(Dex, Symbol), FundingRate>,
    symbol: Symbol,
    first: Seq<(Dex, Dex)>,
    second: Seq<(Dex, Dex)>,
)
    ensures
        stored_spreads(rates, symbol, first + second) == match (
            stored_spreads(rates, symbol, first),
            stored_spreads(rates, symbol, second),
        ) {
            (Ok(a), Ok(b)) => Ok(a + b),
            _ => Err(Overflow),
        },
    decreases second.len(),
{
    let all = first + second;
    if second.len() == 0 {
        assert(all =~= first);
        if let Ok(a) = stored_spreads(rates, symbol, first) {
            assert(a + Seq::<FundingSpread>::empty() =~= a);
        }
    } else {
        assert(all.drop_last() =~= first + second.drop_last());
        assert(all.last() == second.last());
        law_spreads_of_parts_stand_one_behind_the_other(rates, symbol, first, second.drop_last());
        match (
            stored_spreads(rates, symbol, first),
            stored_spreads(rates, symbol, second.drop_last()),
            stored_spread(rates, symbol, second.last()),
        ) {
            (Ok(a), Ok(b), Ok(Some(spread))) => {
                assert((a + b).push(spread) =~= a + b.push(spread));
            },
            _ => {},
        }
    }
}

/// The spreads of one pair are its spread, where it has one.
pub proof fn law_spreads_of_one_pair(
    rates: Map<(Dex, Symbol), FundingRate>,
    symbol: Symbol,
    pair: (Dex, Dex),
)
    ensures
        stored_spreads(rates, symbol, seq![pair]) == match stored_spread(rates, symbol, pair) {
            Ok(Some(spread)) => Ok(seq![spread]),
            Ok(None) => Ok(Seq::empty()),
            Err(e) => Err(e),
        },
{
    reveal_with_fuel(stored_spreads, 2);
    assert(seq![pair].drop_last().len() == 0);
    if let Ok(Some(spread)) = stored_spread(rates, symbol, pair) {
        assert(Seq::<FundingSpread>::empty().push(spread) =~= seq![spread]);
    }
}

} // verus!
