//! Order books.

use perp_arb::book::{BookIntegrityError, Level, OrderBook, Side};
use perp_arb::decimal::Decimal;
use perp_arb::num::{Price, Quantity};
use perp_arb::symbol::{Dex, Symbol};
use perp_arb::time::Clock;
use perp_arb::trace::MessageTrace;

fn dec(text: &str) -> Decimal {
    Decimal::parse(text).unwrap()
}

fn price(text: &str) -> Price {
    Price(dec(text))
}

fn qty(text: &str) -> Quantity {
    Quantity(dec(text))
}

fn lvl(p: &str, q: &str) -> Level {
    Level::new(price(p), qty(q))
}

fn trace() -> MessageTrace {
    MessageTrace::on_receive(&Clock::start())
}

fn near(a: Decimal, b: &str, by: &str) -> bool {
    a.checked_sub(dec(b)).unwrap().abs().is_less(dec(by))
}

fn book() -> OrderBook {
    OrderBook::new(
        Dex::Hyperliquid,
        Symbol::Btc,
        vec![lvl("100", "1"), lvl("99", "2"), lvl("98", "3")],
        vec![lvl("101", "1"), lvl("102", "2"), lvl("103", "3")],
        trace(),
    )
}

fn empty_book() -> OrderBook {
    OrderBook::new(Dex::EdgeX, Symbol::Eth, vec![], vec![], trace())
}

#[test]
fn best_and_mid() {
    let b = book();
    assert_eq!(b.best_bid(), Some(price("100")));
    assert_eq!(b.best_ask(), Some(price("101")));
    assert_eq!(b.mid(), Some(price("100.5")));
    assert!(empty_book().mid().is_none());
}

#[test]
fn vwap_within_first_level() {
    let b = book();
    assert_eq!(b.vwap_for_size(Side::Ask, qty("0.5")), Some(price("101")));
    assert_eq!(b.vwap_for_size(Side::Bid, qty("1")), Some(price("100")));
}

#[test]
fn vwap_across_levels() {
    let b = book();
    assert_eq!(b.vwap_for_size(Side::Ask, qty("2")), Some(price("101.5")));
    let vwap = b.vwap_for_size(Side::Ask, qty("3")).unwrap();
    assert!(near(vwap.0, "101.666666", "0.000001"));
    assert_eq!(b.vwap_for_size(Side::Bid, qty("2")), Some(price("99.5")));
}

#[test]
fn vwap_consumes_entire_book_exactly() {
    let b = book();
    let vwap = b.vwap_for_size(Side::Ask, qty("6")).unwrap();
    assert!(near(vwap.0, "102.333333", "0.000001"));
}

#[test]
fn vwap_returns_none_when_book_too_thin() {
    let b = book();
    assert_eq!(b.vwap_for_size(Side::Ask, qty("6.0001")), None);
    assert_eq!(b.vwap_for_size(Side::Bid, qty("100")), None);
    assert_eq!(empty_book().vwap_for_size(Side::Ask, qty("1")), None);
}

#[test]
fn vwap_rejects_non_positive_size() {
    let b = book();
    assert_eq!(b.vwap_for_size(Side::Ask, qty("0")), None);
    assert_eq!(b.vwap_for_size(Side::Ask, qty("-1")), None);
}

#[test]
fn max_size_within_slippage_ask_side() {
    let b = book();
    assert_eq!(b.max_size_within_slippage(Side::Ask, 0), qty("1"));
    assert_eq!(b.max_size_within_slippage(Side::Ask, 100), qty("3"));
    assert_eq!(b.max_size_within_slippage(Side::Ask, 200), qty("6"));
}

#[test]
fn max_size_within_slippage_bid_side() {
    let b = book();
    assert_eq!(b.max_size_within_slippage(Side::Bid, 0), qty("1"));
    assert_eq!(b.max_size_within_slippage(Side::Bid, 100), qty("3"));
    assert_eq!(b.max_size_within_slippage(Side::Bid, 300), qty("6"));
}

#[test]
fn max_size_within_slippage_stops_at_first_gap() {
    let b = OrderBook::new(
        Dex::EdgeX,
        Symbol::Sol,
        vec![],
        // The last level is out of order, and is not reached.
        vec![lvl("100", "1"), lvl("110", "5"), lvl("100.5", "9")],
        trace(),
    );
    assert_eq!(b.max_size_within_slippage(Side::Ask, 100), qty("1"));
}

#[test]
fn max_size_within_slippage_empty_book_is_zero() {
    assert_eq!(
        empty_book().max_size_within_slippage(Side::Ask, 10),
        Quantity::zero()
    );
}

#[test]
fn slippage_bps_for_size() {
    let b = book();
    let s = b.slippage_bps_for_size(Side::Ask, qty("2")).unwrap();
    assert!(near(s, "49.5049", "0.001"));
    assert!(b.slippage_bps_for_size(Side::Ask, qty("999")).is_none());
}

#[test]
fn validate_accepts_well_formed_book() {
    assert_eq!(book().validate(), Ok(()));
    assert_eq!(empty_book().validate(), Ok(()));
}

#[test]
fn validate_detects_broken_books() {
    let mut b = book();
    b.bids.reverse();
    assert_eq!(b.validate(), Err(BookIntegrityError::BidsNotDescending));

    let mut b = book();
    b.asks.reverse();
    assert_eq!(b.validate(), Err(BookIntegrityError::AsksNotAscending));

    let mut b = book();
    b.asks[0].price = price("99");
    assert!(matches!(
        b.validate(),
        Err(BookIntegrityError::Crossed { .. })
    ));

    let mut b = book();
    b.bids[0].quantity = qty("0");
    assert_eq!(b.validate(), Err(BookIntegrityError::NonPositiveQuantity));
}

#[test]
fn is_crossed_detects_bid_above_ask() {
    assert!(!book().is_crossed());
    assert!(!empty_book().is_crossed());

    let mut b = book();
    b.asks[0].price = price("99");
    assert!(b.is_crossed());

    let mut b = book();
    b.asks[0].price = price("100");
    assert!(b.is_crossed());
}

#[test]
fn validate_allowing_crossed_accepts_crossed_books() {
    let mut b = book();
    b.asks[0].price = price("99");
    assert!(matches!(
        b.validate(),
        Err(BookIntegrityError::Crossed { .. })
    ));
    assert_eq!(b.validate_allowing_crossed(), Ok(()));

    let mut broken = b.clone();
    broken.bids.reverse();
    assert_eq!(
        broken.validate_allowing_crossed(),
        Err(BookIntegrityError::BidsNotDescending)
    );

    let mut broken = b.clone();
    broken.asks[0].quantity = qty("0");
    assert_eq!(
        broken.validate_allowing_crossed(),
        Err(BookIntegrityError::NonPositiveQuantity)
    );
}

#[test]
fn spread_is_measured_against_the_middle() {
    // (101 - 100) / 100.5 * 10000
    let s = book().spread_bps().unwrap();
    assert!(near(s, "99.5025", "0.0001"));
    assert!(empty_book().spread_bps().is_none());
}

#[test]
fn sides_are_opposite() {
    assert_eq!(Side::Bid.opposite(), Side::Ask);
    assert_eq!(Side::Ask.opposite(), Side::Bid);
    assert_eq!(Side::Bid.as_str(), "bid");
    assert_eq!(Side::Ask.as_str(), "ask");
    assert_eq!(book().levels(Side::Bid).len(), 3);
}

#[test]
fn integrity_errors_have_messages() {
    let mut b = book();
    b.asks[0].price = price("99");
    let message = b.validate().unwrap_err().message();
    assert!(message.contains("100"), "{}", message);
    assert!(message.contains("99"), "{}", message);
}

#[test]
fn wider_bound_is_never_shallower() {
    let b = book();
    for side in [Side::Bid, Side::Ask] {
        let mut before = Quantity::zero();
        for bps in [0, 50, 99, 100, 101, 198, 199, 200, 201, 10_000, u32::MAX] {
            let depth = b.max_size_within_slippage(side, bps);
            assert!(!depth.0.is_less(before.0), "{bps}");
            before = depth;
        }
        assert_eq!(before, qty("6"));
    }
    // The bound itself counts.
    assert_eq!(b.max_size_within_slippage(Side::Bid, 99), qty("1"));
    assert_eq!(b.max_size_within_slippage(Side::Bid, 100), qty("3"));
    // A level without a quantity is passed over, one behind it is not.
    let gap = OrderBook::new(
        Dex::EdgeX,
        Symbol::Eth,
        vec![lvl("100", "1"), lvl("100", "0"), lvl("99.9", "2"), lvl("98", "4")],
        vec![],
        trace(),
    );
    assert_eq!(gap.max_size_within_slippage(Side::Bid, 10), qty("3"));
    assert_eq!(gap.max_size_within_slippage(Side::Ask, 10), qty("0"));
}

#[test]
fn no_other_fill_is_better() {
    let b = book();
    // 1 at 101, 2 at 102 and 1 at 103.
    let ask = b.vwap_for_size(Side::Ask, qty("4")).unwrap();
    assert_eq!(ask, price("102"));
    // 1 at 101 and 3 at 103 is dearer.
    assert!(ask.0.is_less(dec("102.5")));
    let bid = b.vwap_for_size(Side::Bid, qty("4")).unwrap();
    assert_eq!(bid, price("99"));
    assert!(dec("98.5").is_less(bid.0));
}

#[test]
fn slippage_is_never_below_zero() {
    let b = book();
    for side in [Side::Bid, Side::Ask] {
        // The best level alone: no slippage.
        assert_eq!(b.slippage_bps_for_size(side, qty("0.5")).unwrap(), dec("0"));
        for size in ["1", "1.5", "2.25", "3", "4"] {
            let bps = b.slippage_bps_for_size(side, qty(size)).unwrap();
            assert!(!bps.is_less(dec("0")));
        }
    }
}
