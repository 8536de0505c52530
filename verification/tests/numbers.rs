//! Decimals, prices and quantities.

use perp_arb::decimal::{Decimal, Overflow};
use perp_arb::num::{bps_denominator, Price, Quantity};
use perp_arb::text;
use perp_arb::wire::Num;

fn dec(text: &str) -> Decimal {
    Decimal::parse(text).unwrap()
}

fn minus(a: Decimal, b: Decimal) -> Decimal {
    a.checked_sub(b).unwrap()
}

#[test]
fn bps_denominator_is_ten_thousand() {
    assert_eq!(bps_denominator(), dec("10000"));
}

#[test]
fn spread_bps_is_antisymmetric() {
    let a = Price(dec("100.5"));
    let b = Price(dec("100.0"));
    let ab = a.spread_bps(b).unwrap();
    let ba = b.spread_bps(a).unwrap();
    assert_eq!(ab, ba.negate());
    assert!(minus(ab, dec("49.8753")).abs().is_less(dec("0.001")));
}

#[test]
fn spread_bps_rejects_zero_reference() {
    assert!(Price(dec("0")).spread_bps(Price(dec("0"))).is_none());
}

#[test]
fn decimals_of_the_same_value_are_equal() {
    assert_eq!(dec("1.50"), dec("1.5"));
    assert_eq!(Decimal::new(150, 2), dec("1.5"));
    assert_eq!(dec("-0"), Decimal::zero());
    assert_eq!(Decimal::from_u64(7), dec("7.000"));
    assert_ne!(dec("1.5"), dec("1.51"));
}

#[test]
fn decimals_are_read_and_written() {
    assert_eq!(dec("36000.50").to_text(), "36000.5");
    assert_eq!(dec("-0.0001").to_text(), "-0.0001");
    assert_eq!(dec("12").to_text(), "12");
    assert_eq!(Decimal::new(5, 3).to_text(), "0.005");
    assert!(Decimal::parse("").is_none());
    assert!(Decimal::parse("abc").is_none());
    assert!(Decimal::parse("1.2.3").is_none());
}

#[test]
fn decimals_are_added_and_multiplied() {
    assert_eq!(dec("0.1").checked_add(dec("0.2")), Ok(dec("0.3")));
    assert_eq!(dec("0.1").checked_sub(dec("0.2")), Ok(dec("-0.1")));
    assert_eq!(dec("1.5").checked_mul(dec("-4")), Ok(dec("-6")));
    assert_eq!(dec("7").checked_div(dec("2")), Ok(dec("3.5")));
    assert_eq!(dec("0").checked_mul(dec("9")), Ok(dec("0")));
}

#[test]
fn arithmetic_that_does_not_fit_is_refused() {
    let huge = dec("79228162514264337593543950335");
    assert_eq!(huge.checked_add(dec("1")), Err(Overflow));
    assert_eq!(huge.negate().checked_sub(dec("1")), Err(Overflow));
    assert_eq!(huge.checked_mul(dec("2")), Err(Overflow));
    assert_eq!(dec("1").checked_div(dec("0")), Err(Overflow));
    assert_eq!(Decimal::try_from_parts(i128::MAX, 0), None);
    assert_eq!(Decimal::try_from_parts(1, 29), None);
    assert_eq!(Decimal::try_from_parts(25, 1), Some(dec("2.5")));
}

#[test]
fn decimals_are_compared_by_value() {
    assert!(dec("-1").is_less(dec("0.5")));
    assert!(!dec("0.50").is_less(dec("0.5")));
    assert!(dec("0.000001").is_positive());
    assert!(!dec("0").is_positive());
    assert!(dec("0.0").is_zero());
    assert_eq!(dec("-3.25").abs(), dec("3.25"));
}

#[test]
fn decimals_are_rounded() {
    // Halves go to the even neighbour.
    assert_eq!(dec("0.12345").round_dp(4), dec("0.1234"));
    assert_eq!(dec("0.12355").round_dp(4), dec("0.1236"));
    assert_eq!(dec("-1.26").round_dp(1), dec("-1.3"));
    assert_eq!(dec("3.01").ceil(), dec("4"));
    assert_eq!(dec("-3.99").ceil(), dec("-3"));
    assert_eq!(dec("5").ceil(), dec("5"));
}

#[test]
fn prices_and_quantities_wrap_decimals() {
    assert_eq!(Price::new(dec("2")).raw(), dec("2"));
    assert_eq!(Quantity::new(dec("3")).raw(), dec("3"));
    assert!(Price(dec("0.1")).is_positive());
    assert!(!Quantity(dec("-0.1")).is_positive());
    assert_eq!(Price::zero(), Price(dec("0")));
    assert_eq!(Quantity::zero(), Quantity(dec("0")));
}

#[test]
fn spread_that_does_not_fit_is_refused() {
    let huge = Price(dec("79228162514264337593543950335"));
    assert_eq!(huge.checked_spread_bps(huge), Err(Overflow));
}

#[test]
fn white_space_around_text_is_cut_off() {
    let white = |c: char| {
        matches!(c, '\u{9}'..='\u{d}' | ' ' | '\u{85}' | '\u{a0}' | '\u{1680}')
            || matches!(c, '\u{2000}'..='\u{200a}' | '\u{2028}' | '\u{2029}' | '\u{202f}')
            || matches!(c, '\u{205f}' | '\u{3000}')
    };
    for c in '\0'..=char::MAX {
        let around = format!("{c}a{c}b{c}");
        if white(c) {
            assert_eq!(text::trim(&around), format!("a{c}b"), "{:x}", c as u32);
        } else {
            assert_eq!(text::trim(&around), around, "{:x}", c as u32);
        }
    }
    assert_eq!(text::trim(" \t\n"), "");
}

#[test]
fn numbers_are_read_back() {
    for n in [0, 7, 10, 42, 1_700_000_000_000, u64::MAX] {
        assert_eq!(Num::Int(n).as_u64(), Some(n));
        for around in ["", " ", "\t\u{3000}\n"] {
            let written = format!("{around}{}{around}", text::number_text(n));
            assert_eq!(Num::Str(written).as_u64(), Some(n));
        }
    }
    for other in ["", " ", "-1", "1.5", "1 2", "+", "x", "18446744073709551616"] {
        assert_eq!(Num::Str(String::from(other)).as_u64(), None, "{other}");
    }
}
