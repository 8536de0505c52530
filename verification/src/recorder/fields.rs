//! The fields of a row.

use vstd::prelude::*;

use crate::decimal;
use crate::decimal::Decimal;
use crate::num::Price;
use crate::text;

verus! {

/// How much time lies between two times, none where they are the wrong way round.
pub open spec fn span_ms(now: u64, then: u64) -> int {
    if now >= then {
        now - then
    } else {
        0
    }
}

/// How much time lies between two times, none where they are the wrong way round.
pub fn elapsed_ms(now: u64, then: u64) -> (r: u64)
    ensures
        r == span_ms(now, then),
{
    if now >= then {
        now - then
    } else {
        0
    }
}

/// `d` rounded to `places` digits behind the point, as text.
pub open spec fn rounded(d: Decimal, places: nat) -> Seq<char> {
    decimal::decimal_text(decimal::from_units(decimal::rounded_units(d.units(), places)))
}

/// `d` rounded, or nothing.
pub open spec fn rounded_or_empty(d: Option<Decimal>, places: nat) -> Seq<char> {
    match d {
        Some(d) => rounded(d, places),
        None => Seq::empty(),
    }
}

/// `d`, or nothing.
pub open spec fn decimal_or_empty(d: Option<Decimal>) -> Seq<char> {
    match d {
        Some(d) => decimal::decimal_text(d),
        None => Seq::empty(),
    }
}

/// The price, or nothing.
pub open spec fn price_or_empty(p: Option<Price>) -> Seq<char> {
    match p {
        Some(p) => decimal::decimal_text(p.0),
        None => Seq::empty(),
    }
}

/// `n`, or nothing.
pub open spec fn number_or_empty(n: Option<u64>) -> Seq<char> {
    match n {
        Some(n) => text::digits(n as nat),
        None => Seq::empty(),
    }
}

/// `n`, or nothing.
pub open spec fn signed_or_empty(n: Option<i64>) -> Seq<char> {
    match n {
        Some(n) => text::signed(n as int),
        None => Seq::empty(),
    }
}

/// `true` or `false`.
pub open spec fn flag(b: bool) -> Seq<char> {
    if b {
        "true"@
    } else {
        "false"@
    }
}

/// `d` rounded to `places` digits behind the point, as text.
pub fn rounded_text(d: Decimal, places: u32) -> (r: String)
    ensures
        r@ == rounded(d, places as nat),
{
    let d = d.round_dp(places);
    proof {
        decimal::lemma_from_units(d);
    }
    d.to_text()
}

pub(crate) fn rounded_field(d: Option<Decimal>, places: u32) -> (r: String)
    ensures
        r@ == rounded_or_empty(d, places as nat),
{
    match d {
        Some(d) => rounded_text(d, places),
        None => empty(),
    }
}

pub(crate) fn decimal_field(d: Option<Decimal>) -> (r: String)
    ensures
        r@ == decimal_or_empty(d),
{
    match d {
        Some(d) => d.to_text(),
        None => empty(),
    }
}

pub(crate) fn price_field(p: Option<Price>) -> (r: String)
    ensures
        r@ == price_or_empty(p),
{
    match p {
        Some(p) => p.0.to_text(),
        None => empty(),
    }
}

pub(crate) fn number_field(n: Option<u64>) -> (r: String)
    ensures
        r@ == number_or_empty(n),
{
    match n {
        Some(n) => text::number_text(n),
        None => empty(),
    }
}

pub(crate) fn signed_field(n: Option<i64>) -> (r: String)
    ensures
        r@ == signed_or_empty(n),
{
    match n {
        Some(n) => text::signed_text(n),
        None => empty(),
    }
}

pub(crate) fn flag_field(b: bool) -> (r: String)
    ensures
        r@ == flag(b),
{
    if b {
        "true".to_owned()
    } else {
        "false".to_owned()
    }
}

fn empty() -> (r: String)
    ensures
        r@ == Seq::<char>::empty(),
{
    let r = String::new();
    proof {
        assert(r@ =~= Seq::<char>::empty());
    }
    r
}

/// A number that has no more digits behind the point than asked for is written as it is, and what is
/// not known is left empty, which nothing else is.
pub proof fn law_fields_say_what_is_known(d: Decimal, places: nat)
    requires
        d.valid(),
        decimal::rounded_units(d.units(), places) == d.units(),
    ensures
        rounded(d, places) == decimal::decimal_text(d),
        rounded_or_empty(Some(d), places) == decimal_or_empty(Some(d)),
        decimal_or_empty(Some(d)).len() > 0,
        price_or_empty(Some(Price(d))) == decimal_or_empty(Some(d)),
        rounded_or_empty(None, places).len() == 0,
        decimal_or_empty(None).len() == 0,
        price_or_empty(None).len() == 0,
        number_or_empty(None).len() == 0,
        signed_or_empty(None).len() == 0,
{
    decimal::lemma_from_units(d);
    decimal::law_text_writes_the_number(d);
}

/// The time between two times takes the earlier one to the later one; the wrong way round it is none.
pub proof fn law_time_between(now: u64, then: u64)
    ensures
        now >= then ==> then + span_ms(now, then) == now,
        now < then ==> span_ms(now, then) == 0,
{
}

} // verus!
