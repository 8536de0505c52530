//! Funding rates, statistics and fees.

use perp_arb::decimal::{Decimal, Overflow};
use perp_arb::fees::{DexFees, ExecutionStyle, FeeSchedule};
use perp_arb::funding::{breakeven_intervals, checked_breakeven_intervals, FundingRate, FundingSpread};
use perp_arb::market_stats::MarketStats;
use perp_arb::num::{Price, Quantity};
use perp_arb::symbol::{Dex, Symbol};
use perp_arb::time::Clock;
use perp_arb::trace::MessageTrace;

fn dec(text: &str) -> Decimal {
    Decimal::parse(text).unwrap()
}

fn trace() -> MessageTrace {
    MessageTrace::on_receive(&Clock::start())
}

fn rate(dex: Dex, current_rate: &str, interval_hours: Option<&str>) -> FundingRate {
    FundingRate {
        dex,
        symbol: Symbol::Btc,
        current_rate: dec(current_rate),
        predicted_rate: None,
        interval_hours: interval_hours.map(dec),
        next_funding_time_ms: None,
        index_price: None,
        mark_price: None,
        open_interest: None,
        volume_24h_usd: None,
        trace: trace(),
    }
}

fn stats(oi: Option<&str>, volume: Option<&str>, price: Option<&str>) -> MarketStats {
    MarketStats {
        dex: Dex::Hyperliquid,
        symbol: Symbol::Btc,
        open_interest: oi.map(|v| Quantity(dec(v))),
        volume_24h_usd: volume.map(dec),
        reference_price: price.map(|v| Price(dec(v))),
        trace: trace(),
    }
}

fn schedule() -> FeeSchedule {
    let mut s = FeeSchedule::new();
    s.insert(
        Dex::Hyperliquid,
        DexFees {
            taker_bps: dec("4.5"),
            maker_bps: dec("1.5"),
        },
    );
    s.insert(
        Dex::Lighter,
        DexFees {
            taker_bps: dec("2.0"),
            // A rebate is negative.
            maker_bps: dec("-0.5"),
        },
    );
    s
}

#[test]
fn annualization_normalizes_different_intervals() {
    let hourly = rate(Dex::Hyperliquid, "0.00001", Some("1"));
    let eight_hourly = rate(Dex::Aster, "0.00008", Some("8"));
    assert_eq!(hourly.annualized_pct(), eight_hourly.annualized_pct());
    assert_eq!(hourly.annualized_pct(), Some(dec("8.7600")));
}

#[test]
fn rate_bps_and_intervals_per_year() {
    let hourly = rate(Dex::Hyperliquid, "0.0001", Some("1"));
    assert_eq!(hourly.rate_bps(), dec("1"));
    assert_eq!(hourly.intervals_per_year(), Some(dec("8760")));
    assert_eq!(hourly.annualized_bps(), Some(dec("8760")));

    let eight = rate(Dex::Aster, "0.0001", Some("8"));
    assert_eq!(eight.intervals_per_year(), Some(dec("1095")));
}

#[test]
fn unknown_interval_yields_no_annualization() {
    let unknown = rate(Dex::EdgeX, "0.0001", None);
    assert_eq!(unknown.intervals_per_year(), None);
    assert_eq!(unknown.annualized_pct(), None);
    assert_eq!(unknown.annualized_bps(), None);

    let zero = rate(Dex::EdgeX, "0.0001", Some("0"));
    assert_eq!(zero.annualized_pct(), None);
}

#[test]
fn unknown_interval_is_never_treated_as_matching() {
    let known = rate(Dex::Hyperliquid, "0.0001", Some("1"));
    let unknown = rate(Dex::Lighter, "0.0002", None);
    assert!(!known.same_interval_as(&unknown));
    assert!(!unknown.same_interval_as(&unknown));

    let spread = FundingSpread::between(&known, &unknown).unwrap();
    assert!(!spread.same_interval);
    assert_eq!(spread.interval_hours, None);
    assert_eq!(spread.annualized_diff_bps, None);
}

#[test]
fn spread_picks_short_side_as_the_higher_rate() {
    let hl = rate(Dex::Hyperliquid, "0.0003", Some("1"));
    let lighter = rate(Dex::Lighter, "0.0001", Some("1"));

    let spread = FundingSpread::between(&hl, &lighter).unwrap();
    assert_eq!(spread.short_dex, Dex::Hyperliquid);
    assert_eq!(spread.long_dex, Dex::Lighter);
    assert_eq!(spread.rate_diff_bps, dec("2"));
    assert!(spread.same_interval);
    assert_eq!(spread.interval_hours, Some(dec("1")));

    let flipped = FundingSpread::between(&lighter, &hl).unwrap();
    assert_eq!(flipped.short_dex, Dex::Hyperliquid);
    assert_eq!(flipped.rate_diff_bps, dec("2"));
}

#[test]
fn spread_handles_negative_rates() {
    let hl = rate(Dex::Hyperliquid, "0.0002", Some("1"));
    let lighter = rate(Dex::Lighter, "-0.0001", Some("1"));
    let spread = FundingSpread::between(&hl, &lighter).unwrap();
    assert_eq!(spread.short_dex, Dex::Hyperliquid);
    assert_eq!(spread.rate_diff_bps, dec("3"));
}

#[test]
fn mismatched_intervals_are_flagged_with_annualized_comparison() {
    let hourly = rate(Dex::Hyperliquid, "0.0001", Some("1"));
    let eight = rate(Dex::Aster, "0.0004", Some("8"));

    let spread = FundingSpread::between(&hourly, &eight).unwrap();
    assert!(!spread.same_interval);
    assert_eq!(spread.short_dex, Dex::Aster);
    assert_eq!(spread.rate_diff_bps, dec("3"));
    assert_eq!(spread.annualized_diff_bps, Some(dec("-4380")));
}

#[test]
fn spread_requires_two_distinct_dexes_and_a_difference() {
    let hl = rate(Dex::Hyperliquid, "0.0001", Some("1"));
    let same = rate(Dex::Lighter, "0.0001", Some("1"));
    assert!(FundingSpread::between(&hl, &same).is_none());
    assert!(FundingSpread::between(&hl, &hl).is_none());

    let other_symbol = FundingRate {
        symbol: Symbol::Eth,
        ..rate(Dex::Lighter, "0.0005", Some("1"))
    };
    assert!(FundingSpread::between(&hl, &other_symbol).is_none());
}

#[test]
fn breakeven_intervals_rounds_up() {
    assert_eq!(breakeven_intervals(dec("3"), dec("10")), Some(4));
    assert_eq!(breakeven_intervals(dec("5"), dec("10")), Some(2));
    assert_eq!(breakeven_intervals(dec("20"), dec("10")), Some(1));
    assert_eq!(breakeven_intervals(dec("3"), dec("0")), Some(0));
    assert_eq!(breakeven_intervals(dec("0"), dec("10")), None);
    assert_eq!(breakeven_intervals(dec("-1"), dec("10")), None);
}

#[test]
fn breakeven_that_does_not_fit_is_refused() {
    // More intervals than can be counted.
    assert_eq!(
        checked_breakeven_intervals(dec("0.0000001"), dec("10000")),
        Ok(None)
    );
    assert_eq!(
        checked_breakeven_intervals(
            dec("0.0000000000000000000000000001"),
            dec("79228162514264337593543950335")
        ),
        Err(Overflow)
    );
}

#[test]
fn latency_of_a_rate_is_that_of_its_message() {
    let mut r = rate(Dex::Lighter, "0.0001", None);
    r.trace.received_wall_ms = 1_500;
    r.trace.exchange_ts_ms = Some(1_200);
    assert_eq!(r.latency_ms(), Some(300));
}

#[test]
fn statistics_of_a_rate_prefer_the_mark_price() {
    let mut r = rate(Dex::Lighter, "0.0001", None);
    r.open_interest = Some(Quantity(dec("10")));
    r.index_price = Some(Price(dec("99")));
    assert_eq!(r.market_stats().reference_price, Some(Price(dec("99"))));
    r.mark_price = Some(Price(dec("100")));
    let s = r.market_stats();
    assert_eq!(s.reference_price, Some(Price(dec("100"))));
    assert_eq!(s.open_interest_usd(), Some(dec("1000")));
}

#[test]
fn converts_open_interest_to_notional() {
    let s = stats(Some("1000"), None, Some("36000"));
    assert_eq!(s.open_interest_usd(), Some(dec("36000000")));
}

#[test]
fn ratio_compares_usd_with_usd() {
    let s = stats(Some("1000"), Some("72000000"), Some("36000"));
    assert_eq!(s.volume_oi_ratio(), Some(dec("2")));
}

#[test]
fn ratio_needs_a_price_to_normalize_units() {
    let s = stats(Some("1000"), Some("72000000"), None);
    assert_eq!(s.open_interest_usd(), None);
    assert_eq!(s.volume_oi_ratio(), None);
}

#[test]
fn zero_open_interest_yields_no_ratio() {
    let s = stats(Some("0"), Some("1000"), Some("36000"));
    assert_eq!(s.volume_oi_ratio(), None);
}

#[test]
fn missing_metrics_are_reported() {
    assert!(!stats(None, None, Some("36000")).has_any());
    assert!(stats(Some("1"), None, None).has_any());
    assert!(stats(None, Some("1"), None).has_any());
}

#[test]
fn entry_and_round_trip() {
    let s = schedule();
    assert_eq!(
        s.entry_bps(Dex::Hyperliquid, Dex::Lighter, ExecutionStyle::Taker),
        Some(dec("6.5"))
    );
    assert_eq!(
        s.round_trip_bps(
            Dex::Hyperliquid,
            Dex::Lighter,
            ExecutionStyle::Taker,
            ExecutionStyle::Taker
        ),
        Some(dec("13.0"))
    );
    assert_eq!(
        s.round_trip_bps(
            Dex::Hyperliquid,
            Dex::Lighter,
            ExecutionStyle::Maker,
            ExecutionStyle::Taker
        ),
        Some(dec("7.5"))
    );
}

#[test]
fn unknown_dex_yields_none_so_strategies_skip_it() {
    let s = schedule();
    assert_eq!(s.get(Dex::Aster), None);
    assert_eq!(
        s.entry_bps(Dex::Hyperliquid, Dex::Aster, ExecutionStyle::Taker),
        None
    );
    assert_eq!(
        s.missing(&Dex::ALL),
        vec![Dex::EdgeX, Dex::Aster, Dex::Dydx]
    );
}

#[test]
fn empty_schedule_reports_everything_missing() {
    let s = FeeSchedule::new();
    assert!(s.is_empty());
    assert_eq!(s.missing(&Dex::ALL).len(), Dex::ALL.len());
}
