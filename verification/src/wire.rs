//! Values that venues write in more than one way.

use vstd::prelude::*;

use crate::decimal::Decimal;
use crate::ladder::Quote;
use crate::text;

verus! {

/// A number that a venue writes with or without quotes.
#[derive(Clone, Debug)]
pub enum Num {
    Int(u64),
    Str(String),
}

impl Num {
    /// The number, where it is one.
    pub open spec fn value(self) -> Option<u64> {
        match self {
            Num::Int(n) => Some(n),
            Num::Str(s) => text::number_in(s@),
        }
    }

    /// The number, where it is one. White space at the ends of a text does not matter.
    pub fn as_u64(&self) -> (r: Option<u64>)
        ensures
            r == self.value(),
    {
        match self {
            Num::Int(n) => Some(*n),
            Num::Str(s) => text::parse_number(s.as_str()),
        }
    }
}

/// A number is read back however it is written: bare, or as text with white space around its digits.
pub proof fn law_number_is_read_however_written(
    n: u64,
    written: String,
    before: Seq<char>,
    after: Seq<char>,
)
    requires
        text::all_white(before),
        text::all_white(after),
        written@ == before + text::digits(n as nat) + after,
    ensures
        Num::Int(n).value() == Some(n),
        Num::Str(written).value() == Some(n),
{
    text::law_number_is_read_back(n, before, after);
}

/// The number, where there is one.
pub open spec fn value_of(n: Option<Num>) -> Option<u64> {
    match n {
        Some(n) => n.value(),
        None => None,
    }
}

/// The number, where there is one.
pub fn number_of(n: &Option<Num>) -> (r: Option<u64>)
    ensures
        r == value_of(*n),
{
    match n {
        Some(n) => n.as_u64(),
        None => None,
    }
}

/// One level, as an object or as a list of price and size.
#[derive(Clone, Debug)]
pub enum PriceSize {
    Object { price: Decimal, size: Decimal },
    Tuple(Vec<Decimal>),
}

impl Quote for PriceSize {
    open spec fn pair(&self) -> Option<(Decimal, Decimal)> {
        match *self {
            PriceSize::Object { price, size } => Some((price, size)),
            PriceSize::Tuple(v) => if v@.len() >= 2 {
                Some((v@[0], v@[1]))
            } else {
                None
            },
        }
    }

    /// The price and the size; `None` for a list that is too short.
    fn parts(&self) -> (r: Option<(Decimal, Decimal)>) {
        match self {
            PriceSize::Object { price, size } => Some((*price, *size)),
            PriceSize::Tuple(v) => if v.len() >= 2 {
                Some((v[0], v[1]))
            } else {
                None
            },
        }
    }
}

/// A level says the same as an object and as a list: the price first, then the size, whatever stands
/// behind them. A list with fewer than two numbers says nothing.
pub proof fn law_levels_say_the_same_either_way(price: Decimal, size: Decimal, v: Vec<Decimal>)
    ensures
        (PriceSize::Object { price, size }).pair() == Some((price, size)),
        v@.len() >= 2 ==> PriceSize::Tuple(v).pair() == Some((v@[0], v@[1])),
        v@.len() < 2 ==> PriceSize::Tuple(v).pair() is None,
{
}

} // verus!
