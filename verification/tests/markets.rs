//! Pairs of venues, price differences and stores.

use perp_arb::book::{Level, OrderBook};
use perp_arb::decimal::{Decimal, Overflow};
use perp_arb::divergence::{DivergenceSnapshot, ExecutableDirection};
use perp_arb::funding::FundingRate;
use perp_arb::funding_store::FundingStore;
use perp_arb::num::{Price, Quantity};
use perp_arb::pairs::{dex_pairs, pairs_involving};
use perp_arb::store::BookStore;
use perp_arb::symbol::{Dex, Symbol};
use perp_arb::time::{Clock, Instant};
use perp_arb::trace::MessageTrace;

/// The venues with an order book that is never crossed.
const FOUR: [Dex; 4] = [Dex::Hyperliquid, Dex::EdgeX, Dex::Aster, Dex::Lighter];

fn dec(text: &str) -> Decimal {
    Decimal::parse(text).unwrap()
}

fn near(a: Decimal, b: &str, by: &str) -> bool {
    a.checked_sub(dec(b)).unwrap().abs().is_less(dec(by))
}

fn lvl(p: &str, q: &str) -> Level {
    Level::new(Price(dec(p)), Quantity(dec(q)))
}

fn book(dex: Dex, bids: Vec<Level>, asks: Vec<Level>, wall_ms: u64) -> OrderBook {
    let clock = Clock::start();
    let mut trace = MessageTrace::on_receive(&clock);
    trace.received_wall_ms = wall_ms;
    trace.mark_normalized(&clock);
    OrderBook::new(dex, Symbol::Btc, bids, asks, trace)
}

fn flat_pair() -> (OrderBook, OrderBook) {
    let a = book(
        Dex::Hyperliquid,
        vec![lvl("100", "5")],
        vec![lvl("101", "5")],
        1_000,
    );
    let b = book(
        Dex::EdgeX,
        vec![lvl("100", "5")],
        vec![lvl("101", "5")],
        1_000,
    );
    (a, b)
}

fn compute(
    a: &OrderBook,
    b: &OrderBook,
    trigger: Dex,
    notional: Option<&str>,
) -> Option<DivergenceSnapshot> {
    DivergenceSnapshot::compute(a, b, trigger, notional.map(dec), &Clock::start())
}

fn stored_book(dex: Dex, symbol: Symbol, bid: &str, ask: &str) -> OrderBook {
    OrderBook::new(
        dex,
        symbol,
        vec![lvl(bid, "10")],
        vec![lvl(ask, "10")],
        MessageTrace::on_receive(&Clock::start()),
    )
}

fn rate(dex: Dex, symbol: Symbol, current_rate: &str) -> FundingRate {
    FundingRate {
        dex,
        symbol,
        current_rate: dec(current_rate),
        predicted_rate: None,
        interval_hours: Some(dec("1")),
        next_funding_time_ms: None,
        index_price: None,
        mark_price: None,
        open_interest: None,
        volume_24h_usd: None,
        trace: MessageTrace::on_receive(&Clock::start()),
    }
}

#[test]
fn enumerates_n_choose_2() {
    assert_eq!(dex_pairs(&[]), vec![]);
    assert_eq!(dex_pairs(&[Dex::Hyperliquid]), vec![]);
    assert_eq!(
        dex_pairs(&[Dex::Hyperliquid, Dex::EdgeX]),
        vec![(Dex::Hyperliquid, Dex::EdgeX)]
    );
    assert_eq!(dex_pairs(&FOUR).len(), 6);
    assert_eq!(dex_pairs(&Dex::ALL).len(), 10);
}

#[test]
fn pairs_are_canonically_ordered_regardless_of_input_order() {
    let forward = dex_pairs(&FOUR);
    let mut reversed = FOUR.to_vec();
    reversed.reverse();
    assert_eq!(dex_pairs(&reversed), forward);

    assert_eq!(
        forward,
        vec![
            (Dex::Hyperliquid, Dex::EdgeX),
            (Dex::Hyperliquid, Dex::Aster),
            (Dex::Hyperliquid, Dex::Lighter),
            (Dex::EdgeX, Dex::Aster),
            (Dex::EdgeX, Dex::Lighter),
            (Dex::Aster, Dex::Lighter),
        ]
    );
}

#[test]
fn duplicates_are_ignored() {
    assert_eq!(
        dex_pairs(&[Dex::Aster, Dex::Aster, Dex::EdgeX]),
        vec![(Dex::EdgeX, Dex::Aster)]
    );
}

#[test]
fn pairs_involving_selects_only_relevant_ones() {
    let involving = pairs_involving(Dex::Aster, &FOUR);
    assert_eq!(involving.len(), 3);
    assert!(involving
        .iter()
        .all(|(a, b)| *a == Dex::Aster || *b == Dex::Aster));

    // Each pair has two venues, so that it is counted twice.
    let total: usize = FOUR.iter().map(|d| pairs_involving(*d, &FOUR).len()).sum();
    assert_eq!(total, dex_pairs(&FOUR).len() * 2);
}

#[test]
fn unknown_dex_yields_no_pairs() {
    assert!(pairs_involving(Dex::Lighter, &[Dex::Hyperliquid, Dex::EdgeX]).is_empty());
}

#[test]
fn identical_books_have_zero_raw_spread() {
    let (a, b) = flat_pair();
    let s = compute(&a, &b, Dex::Hyperliquid, None).unwrap();
    assert_eq!(s.raw_spread_bps, Decimal::zero());
    assert!(near(s.executable_spread_bps, "-99.5024", "0.001"));
    assert_eq!(s.staleness_delta_ms, 0);
}

#[test]
fn raw_spread_sign_shows_which_dex_is_richer() {
    let a = book(
        Dex::Hyperliquid,
        vec![lvl("110", "5")],
        vec![lvl("111", "5")],
        1_000,
    );
    let (_, b) = flat_pair();
    let s = compute(&a, &b, Dex::Hyperliquid, None).unwrap();
    assert!(s.raw_spread_bps.is_positive());

    let flipped = compute(&b, &a, Dex::EdgeX, None).unwrap();
    assert_eq!(flipped.raw_spread_bps, s.raw_spread_bps.negate());
}

#[test]
fn executable_spread_picks_profitable_direction() {
    let a = book(
        Dex::Hyperliquid,
        vec![lvl("110", "5")],
        vec![lvl("111", "5")],
        1_000,
    );
    let (_, b) = flat_pair();
    let s = compute(&a, &b, Dex::Hyperliquid, None).unwrap();
    assert_eq!(s.executable_direction, ExecutableDirection::SellABuyB);
    assert!(near(s.executable_spread_bps, "853.0805", "0.01"));

    let s2 = compute(&b, &a, Dex::EdgeX, None).unwrap();
    assert_eq!(s2.executable_direction, ExecutableDirection::SellBBuyA);
    assert_eq!(s2.executable_spread_bps, s.executable_spread_bps);
}

#[test]
fn vwap_spread_uses_deeper_levels_and_is_worse_than_top_of_book() {
    let a = book(
        Dex::Hyperliquid,
        vec![lvl("110", "1"), lvl("105", "100")],
        vec![lvl("111", "100")],
        1_000,
    );
    let b = book(
        Dex::EdgeX,
        vec![lvl("100", "100")],
        vec![lvl("101", "100")],
        1_000,
    );
    let s = compute(&a, &b, Dex::Hyperliquid, Some("1055")).unwrap();
    let vwap = s.vwap_spread_bps.unwrap();
    assert!(vwap.is_less(s.executable_spread_bps));
}

#[test]
fn vwap_spread_is_none_when_book_too_thin() {
    let (a, b) = flat_pair();
    let s = compute(&a, &b, Dex::Hyperliquid, Some("1000000")).unwrap();
    assert!(s.vwap_spread_bps.is_none());
    assert!(s.vwap_size.is_some());
}

#[test]
fn vwap_is_none_without_notional() {
    let (a, b) = flat_pair();
    let s = compute(&a, &b, Dex::Hyperliquid, None).unwrap();
    assert!(s.vwap_spread_bps.is_none());
    assert!(s.vwap_size.is_none());
}

#[test]
fn staleness_delta_records_freshness_gap() {
    let a = book(
        Dex::Hyperliquid,
        vec![lvl("100", "5")],
        vec![lvl("101", "5")],
        5_000,
    );
    let b = book(
        Dex::EdgeX,
        vec![lvl("100", "5")],
        vec![lvl("101", "5")],
        3_800,
    );
    let s = compute(&a, &b, Dex::Hyperliquid, None).unwrap();
    assert_eq!(s.staleness_delta_ms, 1_200);
}

#[test]
fn depth_uses_thinner_side() {
    let a = book(
        Dex::Hyperliquid,
        vec![lvl("100", "2")],
        vec![lvl("101", "50")],
        1_000,
    );
    let (_, b) = flat_pair();
    let s = compute(&a, &b, Dex::Hyperliquid, None).unwrap();
    assert_eq!(s.depth_a_bps10, Quantity(dec("2")));
    assert_eq!(s.depth_b_bps10, Quantity(dec("5")));
}

#[test]
fn pipeline_latency_recorded_only_for_trigger_side() {
    let (a, b) = flat_pair();
    let s = compute(&a, &b, Dex::Hyperliquid, None).unwrap();
    assert!(s.trace_a.evaluated_instant.is_some());
    assert!(s.trace_b.evaluated_instant.is_none());
    assert!(s.pipeline_latency_us().is_some());
}

#[test]
fn rejects_mismatched_inputs() {
    let (a, _) = flat_pair();
    let other_symbol = OrderBook::new(
        Dex::EdgeX,
        Symbol::Eth,
        vec![lvl("100", "5")],
        vec![lvl("101", "5")],
        MessageTrace::on_receive(&Clock::start()),
    );
    assert!(compute(&a, &other_symbol, Dex::EdgeX, None).is_none());
    assert!(compute(&a, &a, Dex::Hyperliquid, None).is_none());
}

#[test]
fn crossed_books_are_flagged_but_still_recorded() {
    let crossed = book(
        Dex::Dydx,
        vec![lvl("102", "5")],
        vec![lvl("101", "5")],
        1_000,
    );
    let (a, _) = flat_pair();

    let s = compute(&a, &crossed, Dex::Dydx, None).unwrap();
    assert!(!s.book_crossed_a);
    assert!(s.book_crossed_b);
    assert!(s.has_crossed_book());

    let (a, b) = flat_pair();
    let s = compute(&a, &b, Dex::Hyperliquid, None).unwrap();
    assert!(!s.has_crossed_book());
}

#[test]
fn one_sided_book_yields_no_snapshot() {
    let (_, b) = flat_pair();
    let one_sided = book(Dex::Hyperliquid, vec![lvl("100", "5")], vec![], 1_000);
    assert!(compute(&one_sided, &b, Dex::Hyperliquid, None).is_none());
}

#[test]
fn snapshot_is_timed_from_the_receipt_of_the_changed_book() {
    let (mut a, b) = flat_pair();
    a.trace = MessageTrace::received_at(Instant { nanos: 5_000 }, 1_000);
    a.trace.exchange_ts_ms = Some(940);
    let s = DivergenceSnapshot::checked_compute_at(
        &a,
        &b,
        Dex::Hyperliquid,
        None,
        Instant { nanos: 47_000 },
        1_234,
    )
    .unwrap()
    .unwrap();
    assert_eq!(s.pipeline_latency_us(), Some(42));
    assert_eq!(s.exchange_latency_ms(Dex::Hyperliquid), Some(60));
    assert_eq!(s.exchange_latency_ms(Dex::Aster), None);
    assert_eq!(s.computed_at_wall_ms, 1_234);
}

#[test]
fn prices_that_cannot_be_compared_are_refused() {
    let huge = "79228162514264337593543950335";
    let a = book(
        Dex::Hyperliquid,
        vec![lvl(huge, "5")],
        vec![lvl(huge, "5")],
        1_000,
    );
    let b = book(
        Dex::EdgeX,
        vec![lvl(huge, "5")],
        vec![lvl(huge, "5")],
        1_000,
    );
    let r = DivergenceSnapshot::checked_compute(&a, &b, Dex::EdgeX, None, &Clock::start());
    assert!(matches!(r, Err(Overflow)));
}

#[test]
fn store_update_overwrites_same_key() {
    let mut store = BookStore::new();
    store.update(stored_book(Dex::Hyperliquid, Symbol::Btc, "100", "101"));
    store.update(stored_book(Dex::Hyperliquid, Symbol::Btc, "200", "201"));
    assert_eq!(store.len(), 1);
    assert!(!store.is_empty());
    assert_eq!(
        store.get(Dex::Hyperliquid, Symbol::Btc).unwrap().best_bid(),
        Some(Price(dec("200")))
    );
}

#[test]
fn divergence_requires_both_sides() {
    let clock = Clock::start();
    let mut store = BookStore::new();
    store.update(stored_book(Dex::Hyperliquid, Symbol::Btc, "100", "101"));
    assert!(store
        .divergence(
            Symbol::Btc,
            Dex::Hyperliquid,
            Dex::EdgeX,
            Dex::Hyperliquid,
            None,
            &clock
        )
        .is_none());

    store.update(stored_book(Dex::EdgeX, Symbol::Btc, "110", "111"));
    let s = store
        .divergence(
            Symbol::Btc,
            Dex::Hyperliquid,
            Dex::EdgeX,
            Dex::Hyperliquid,
            None,
            &clock,
        )
        .unwrap();
    assert!(s.raw_spread_bps.is_less(Decimal::zero()));

    assert!(store
        .divergence(
            Symbol::Eth,
            Dex::Hyperliquid,
            Dex::EdgeX,
            Dex::Hyperliquid,
            None,
            &clock
        )
        .is_none());
}

#[test]
fn divergences_skip_pairs_whose_book_is_missing() {
    let mut store = BookStore::new();
    store.update(stored_book(Dex::Hyperliquid, Symbol::Hype, "20", "20.1"));
    store.update(stored_book(Dex::Aster, Symbol::Hype, "21", "21.1"));

    let pairs = pairs_involving(Dex::Aster, &FOUR);
    assert_eq!(pairs.len(), 3);

    let snapshots = store.divergences(Symbol::Hype, &pairs, Dex::Aster, None, &Clock::start());
    assert_eq!(snapshots.len(), 1);
    assert_eq!(snapshots[0].dex_a, Dex::Hyperliquid);
    assert_eq!(snapshots[0].dex_b, Dex::Aster);
    assert_eq!(snapshots[0].trigger_dex, Dex::Aster);
}

#[test]
fn divergences_cover_all_pairs_when_every_dex_has_the_book() {
    let clock = Clock::start();
    let mut store = BookStore::new();
    for (i, dex) in FOUR.iter().enumerate() {
        let bid = format!("{}", 100 + i);
        let ask = format!("{}", 101 + i);
        store.update(stored_book(*dex, Symbol::Btc, &bid, &ask));
    }
    let all = store.divergences(Symbol::Btc, &dex_pairs(&FOUR), Dex::Hyperliquid, None, &clock);
    assert_eq!(all.len(), 6);

    let involving = store.divergences(
        Symbol::Btc,
        &pairs_involving(Dex::Hyperliquid, &FOUR),
        Dex::Hyperliquid,
        None,
        &clock,
    );
    assert_eq!(involving.len(), 3);
}

#[test]
fn funding_store_update_overwrites_same_key() {
    let mut store = FundingStore::new();
    assert!(store.is_empty());
    store.update(rate(Dex::Hyperliquid, Symbol::Btc, "0.0001"));
    store.update(rate(Dex::Hyperliquid, Symbol::Btc, "0.0005"));
    assert_eq!(store.len(), 1);
    assert_eq!(
        store
            .get(Dex::Hyperliquid, Symbol::Btc)
            .unwrap()
            .current_rate,
        dec("0.0005")
    );
}

#[test]
fn spread_requires_both_sides() {
    let mut store = FundingStore::new();
    store.update(rate(Dex::Hyperliquid, Symbol::Btc, "0.0003"));
    assert!(store
        .spread(Symbol::Btc, Dex::Hyperliquid, Dex::Lighter)
        .is_none());

    store.update(rate(Dex::Lighter, Symbol::Btc, "0.0001"));
    let spread = store
        .spread(Symbol::Btc, Dex::Hyperliquid, Dex::Lighter)
        .unwrap();
    assert_eq!(spread.short_dex, Dex::Hyperliquid);
    assert_eq!(spread.rate_diff_bps, dec("2"));
}

#[test]
fn spreads_skip_pairs_without_data() {
    let mut store = FundingStore::new();
    store.update(rate(Dex::Hyperliquid, Symbol::Btc, "0.0003"));
    store.update(rate(Dex::Lighter, Symbol::Btc, "0.0001"));

    let pairs = dex_pairs(&Dex::ALL);
    assert!(pairs.len() > 1);
    assert_eq!(store.spreads(Symbol::Btc, &pairs).len(), 1);
}

#[test]
fn stored_books_are_compared_at_the_given_time() {
    let mut store = BookStore::new();
    store.update(stored_book(Dex::Hyperliquid, Symbol::Btc, "110", "111"));
    store.update(stored_book(Dex::EdgeX, Symbol::Btc, "100", "101"));
    let at = Instant { nanos: 7_000 };
    let snapshot = store
        .checked_divergence_at(
            Symbol::Btc,
            Dex::Hyperliquid,
            Dex::EdgeX,
            Dex::EdgeX,
            None,
            at,
            1_700_000_000_000,
        )
        .unwrap()
        .unwrap();
    assert_eq!(snapshot.computed_at_wall_ms, 1_700_000_000_000);
    assert_eq!(snapshot.trace_b.evaluated_instant, Some(at));
    assert_eq!(snapshot.trace_a.evaluated_instant, None);
    let missing = store.checked_divergence_at(
        Symbol::Btc,
        Dex::Hyperliquid,
        Dex::Aster,
        Dex::Aster,
        None,
        at,
        0,
    );
    assert_eq!(missing, Ok(None));
}

#[test]
fn the_dearer_venue_is_sold_on() {
    for (bid, ask) in [("110", "111"), ("90", "91"), ("99.5", "100.4"), ("3", "900")] {
        let a = book(
            Dex::Hyperliquid,
            vec![lvl(bid, "5")],
            vec![lvl(ask, "5")],
            1_000,
        );
        let (_, b) = flat_pair();
        let s = compute(&a, &b, Dex::Hyperliquid, None).unwrap();
        let sold = if s.mid_b.0.is_less(s.mid_a.0) {
            ExecutableDirection::SellABuyB
        } else {
            ExecutableDirection::SellBBuyA
        };
        assert_eq!(s.executable_direction, sold);
    }
}

#[test]
fn pairs_stand_in_order_and_are_counted_twice() {
    let dexes = [Dex::Dydx, Dex::Aster, Dex::Hyperliquid, Dex::Lighter, Dex::EdgeX];
    let pairs = dex_pairs(&dexes);
    assert_eq!(pairs.len(), 10);
    let places: Vec<(usize, usize)> = pairs.iter().map(|p| (p.0.index(), p.1.index())).collect();
    assert!(places.windows(2).all(|w| w[0] < w[1]));
    let counted: usize = dexes.iter().map(|d| pairs_involving(*d, &dexes).len()).sum();
    assert_eq!(counted, 2 * pairs.len());
}
