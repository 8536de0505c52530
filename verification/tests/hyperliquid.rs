//! Hyperliquid: messages, books and connections; and the way from two venues to a row.

use perp_arb::book::OrderBook;
use perp_arb::config::{CsvMode, HyperliquidConfig, RecordingConfig};
use perp_arb::dates::wall_ms_to_date;
use perp_arb::decimal::Decimal;
use perp_arb::divergence::ExecutableDirection;
use perp_arb::edgex::book_builder::BookBuilder;
use perp_arb::edgex::message::{DepthData, Num, RawLevel};
use perp_arb::hyperliquid::market_data::{HyperliquidMarketData, Incoming, Reaction};
use perp_arb::hyperliquid::message::{
    ping_message, to_funding_rate, to_order_book, ActiveAssetCtxData, AssetCtx, HlLevel, HlMessage,
    L2BookData, SubscribeRequest,
};
use perp_arb::num::{Price, Quantity};
use perp_arb::recorder::csv_writer::{csv_file_name, csv_header, CsvRecorder, Recording};
use perp_arb::source::{MarketDataError, Next, SendResult, SessionEnd};
use perp_arb::status::ConnectionStatus;
use perp_arb::store::BookStore;
use perp_arb::symbol::{Dex, Symbol};
use perp_arb::time::{Clock, Duration};
use perp_arb::trace::MessageTrace;
use serde_json::Value;

const L2_BOOK_SAMPLE: &str = r#"{
    "channel": "l2Book",
    "data": {
        "coin": "BTC",
        "time": 1700000000123,
        "levels": [
            [
                {"px": "36000.5", "sz": "1.5", "n": 3},
                {"px": "36000.0", "sz": "2.25", "n": 5},
                {"px": "35999.0", "sz": "0", "n": 0}
            ],
            [
                {"px": "36001.0", "sz": "2.0", "n": 2},
                {"px": "36002.5", "sz": "4.125", "n": 7}
            ]
        ]
    }
}"#;

const L2_BOOK: &str = r#"{"channel":"l2Book","data":{"coin":"BTC","time":1700000000000,
    "levels":[[{"px":"36000.5","sz":"1.5","n":3},{"px":"36000.0","sz":"2.0","n":1}],
              [{"px":"36001.0","sz":"2.0","n":2},{"px":"36002.0","sz":"1.0","n":1}]]}}"#;

const HL_L2_BOOK: &str = r#"{"channel":"l2Book","data":{"coin":"BTC","time":1700000000000,
    "levels":[[{"px":"36000.5","sz":"5","n":3},{"px":"36000.0","sz":"10","n":4}],
              [{"px":"36001.0","sz":"5","n":2},{"px":"36002.0","sz":"10","n":3}]]}}"#;

const ACTIVE_ASSET_CTX: &str = r#"{
    "channel": "activeAssetCtx",
    "data": {
        "coin": "BTC",
        "ctx": {
            "funding": "0.0000125",
            "openInterest": "1234.5",
            "oraclePx": "36000.0",
            "markPx": "36000.5",
            "midPx": "36000.4",
            "premium": "0.0001"
        }
    }
}"#;

fn dec(text: &str) -> Decimal {
    Decimal::parse(text).unwrap()
}

fn price(text: &str) -> Option<Price> {
    Some(Price(dec(text)))
}

fn number(value: &Value) -> Option<Decimal> {
    value.as_str().map(dec)
}

fn parse(raw: &str) -> HlMessage {
    let v: Value = serde_json::from_str(raw).unwrap();
    let data = &v["data"];
    match v["channel"].as_str().unwrap() {
        "l2Book" => HlMessage::L2Book {
            data: L2BookData {
                coin: String::from(data["coin"].as_str().unwrap()),
                time: data["time"].as_u64(),
                levels: data["levels"]
                    .as_array()
                    .unwrap()
                    .iter()
                    .map(|side| {
                        side.as_array()
                            .unwrap()
                            .iter()
                            .map(|l| HlLevel {
                                px: number(&l["px"]).unwrap(),
                                sz: number(&l["sz"]).unwrap(),
                                n: l["n"].as_u64().unwrap_or(0),
                            })
                            .collect()
                    })
                    .collect(),
            },
        },
        "activeAssetCtx" => HlMessage::ActiveAssetCtx {
            data: ActiveAssetCtxData {
                coin: String::from(data["coin"].as_str().unwrap()),
                ctx: AssetCtx {
                    funding: number(&data["ctx"]["funding"]),
                    oracle_px: number(&data["ctx"]["oraclePx"]),
                    mark_px: number(&data["ctx"]["markPx"]),
                    mid_px: number(&data["ctx"]["midPx"]),
                    open_interest: number(&data["ctx"]["openInterest"]),
                    day_ntl_vlm: number(&data["ctx"]["dayNtlVlm"]),
                    premium: number(&data["ctx"]["premium"]),
                },
            },
        },
        "pong" => HlMessage::Pong,
        "subscriptionResponse" => HlMessage::SubscriptionResponse {
            data: data.to_string(),
        },
        "error" => HlMessage::Error {
            data: data.to_string(),
        },
        _ => HlMessage::Other,
    }
}

fn l2_book(raw: &str) -> L2BookData {
    match parse(raw) {
        HlMessage::L2Book { data } => data,
        other => panic!("{:?}", other),
    }
}

fn context(raw: &str) -> ActiveAssetCtxData {
    match parse(raw) {
        HlMessage::ActiveAssetCtx { data } => data,
        other => panic!("{:?}", other),
    }
}

fn trace() -> MessageTrace {
    MessageTrace::on_receive(&Clock::start())
}

fn parse_sample(depth: usize) -> OrderBook {
    to_order_book(&l2_book(L2_BOOK_SAMPLE), depth, trace(), &Clock::start()).unwrap()
}

fn test_config() -> HyperliquidConfig {
    HyperliquidConfig {
        reconnect_max_attempts: 1,
        reconnect_base_delay_ms: 10,
        reconnect_max_delay_ms: 20,
        ..Default::default()
    }
}

fn take(source: &mut HyperliquidMarketData, raw: &str) -> Reaction {
    source.on_message(&Incoming::Message(parse(raw)), trace(), &Clock::start())
}

fn hyperliquid_book(depth: usize) -> OrderBook {
    let mut trace = trace();
    trace.received_wall_ms = 1_700_000_000_050;
    to_order_book(&l2_book(HL_L2_BOOK), depth, trace, &Clock::start()).unwrap()
}

fn edgex_book(depth: usize) -> OrderBook {
    let level = |p: &str, q: &str| RawLevel::Tuple(vec![dec(p), dec(q)]);
    let snapshot = DepthData {
        contract_id: Some(String::from("10000001")),
        contract_name: None,
        start_version: Some(Num::Str(String::from("100"))),
        end_version: Some(Num::Str(String::from("100"))),
        level: None,
        bids: vec![level("36010.5", "5"), level("36010.0", "10")],
        asks: vec![level("36011.0", "5"), level("36012.0", "10")],
    };
    let mut builder = BookBuilder::new(Symbol::Btc, 15);
    builder.apply_snapshot(&snapshot);
    let mut trace = trace();
    trace.received_wall_ms = 1_700_000_000_070;
    builder.to_order_book(depth, Some(1_700_000_000_010), trace, &Clock::start())
}

#[test]
fn parses_l2_book_sample() {
    let book = parse_sample(20);
    assert_eq!(book.dex, Dex::Hyperliquid);
    assert_eq!(book.symbol, Symbol::Btc);
    assert_eq!(book.best_bid(), price("36000.5"));
    assert_eq!(book.best_ask(), price("36001.0"));
    assert_eq!(book.mid(), price("36000.75"));
    assert_eq!(book.trace.exchange_ts_ms, Some(1700000000123));
    assert!(book.trace.normalize_latency().is_some());
    book.validate().unwrap();
}

#[test]
fn drops_zero_size_levels() {
    let book = parse_sample(20);
    assert_eq!(book.bids.len(), 2);
    assert_eq!(book.asks.len(), 2);
    assert_eq!(book.bids[1].quantity, Quantity(dec("2.25")));
}

#[test]
fn truncates_to_requested_depth() {
    let book = parse_sample(1);
    assert_eq!(book.bids.len(), 1);
    assert_eq!(book.asks.len(), 1);
    assert_eq!(book.bids[0].price, Price(dec("36000.5")));
}

#[test]
fn sorts_defensively_when_exchange_order_is_odd() {
    let raw = r#"{"channel":"l2Book","data":{"coin":"ETH","time":1,"levels":[
        [{"px":"1999.0","sz":"1","n":1},{"px":"2000.0","sz":"1","n":1}],
        [{"px":"2002.0","sz":"1","n":1},{"px":"2001.0","sz":"1","n":1}]]}}"#;
    let book = to_order_book(&l2_book(raw), 10, trace(), &Clock::start()).unwrap();
    assert_eq!(book.best_bid(), price("2000"));
    assert_eq!(book.best_ask(), price("2001"));
    book.validate().unwrap();
}

#[test]
fn rejects_unknown_coin() {
    let raw = r#"{"channel":"l2Book","data":{"coin":"DOGE","time":1,"levels":[[],[]]}}"#;
    assert!(to_order_book(&l2_book(raw), 10, trace(), &Clock::start()).is_err());
}

#[test]
fn rejects_malformed_levels() {
    let raw = r#"{"channel":"l2Book","data":{"coin":"SOL","time":1,"levels":[[]]}}"#;
    assert!(to_order_book(&l2_book(raw), 10, trace(), &Clock::start()).is_err());
}

#[test]
fn handles_missing_timestamp() {
    let raw = r#"{"channel":"l2Book","data":{"coin":"HYPE","levels":[
        [{"px":"20.5","sz":"10","n":1}],[{"px":"20.6","sz":"10","n":1}]]}}"#;
    let book = to_order_book(&l2_book(raw), 10, trace(), &Clock::start()).unwrap();
    assert_eq!(book.trace.exchange_ts_ms, None);
    assert_eq!(book.trace.exchange_to_local_ms(), None);
}

#[test]
fn classifies_control_messages() {
    assert!(matches!(parse(r#"{"channel":"pong"}"#), HlMessage::Pong));
    assert!(matches!(
        parse(r#"{"channel":"subscriptionResponse","data":{}}"#),
        HlMessage::SubscriptionResponse { .. }
    ));
    assert!(matches!(
        parse(r#"{"channel":"error","data":"bad"}"#),
        HlMessage::Error { .. }
    ));
    assert!(matches!(
        parse(r#"{"channel":"trades","data":[]}"#),
        HlMessage::Other
    ));
    // None of them is a book or an error in a message.
    let mut source = HyperliquidMarketData::new(test_config());
    for raw in [
        r#"{"channel":"pong"}"#,
        r#"{"channel":"subscriptionResponse","data":{}}"#,
        r#"{"channel":"error","data":"bad"}"#,
        r#"{"channel":"trades","data":[]}"#,
    ] {
        assert!(matches!(take(&mut source, raw), Reaction::Nothing));
    }
    assert_eq!(source.messages_received(), 4);
    assert_eq!(source.parse_errors(), 0);
}

#[test]
fn subscribe_request_matches_api_format() {
    assert_eq!(
        SubscribeRequest::l2_book(Symbol::Hype).to_text(),
        r#"{"method":"subscribe","subscription":{"type":"l2Book","coin":"HYPE"}}"#
    );
    assert_eq!(
        SubscribeRequest::active_asset_ctx(Symbol::Btc).to_text(),
        r#"{"method":"subscribe","subscription":{"type":"activeAssetCtx","coin":"BTC"}}"#
    );
    assert_eq!(ping_message(), r#"{"method":"ping"}"#);
}

#[test]
fn parses_active_asset_ctx_into_funding_rate() {
    let rate = to_funding_rate(
        &context(ACTIVE_ASSET_CTX),
        Some(dec("1")),
        trace(),
        &Clock::start(),
    )
    .unwrap();

    assert_eq!(rate.dex, Dex::Hyperliquid);
    assert_eq!(rate.symbol, Symbol::Btc);
    assert_eq!(rate.current_rate, dec("0.0000125"));
    assert_eq!(rate.index_price, price("36000.0"));
    assert_eq!(rate.mark_price, price("36000.5"));
    assert_eq!(rate.annualized_pct(), Some(dec("10.9500")));
    assert!(rate.trace.normalize_latency().is_some());
}

#[test]
fn funding_without_configured_interval_is_not_annualized() {
    let rate = to_funding_rate(&context(ACTIVE_ASSET_CTX), None, trace(), &Clock::start()).unwrap();
    assert_eq!(rate.interval_hours, None);
    assert_eq!(rate.annualized_pct(), None);
}

#[test]
fn ctx_without_funding_yields_nothing() {
    let raw = r#"{"channel":"activeAssetCtx","data":{"coin":"ETH",
        "ctx":{"markPx":"2000.0","midPx":"2000.1"}}}"#;
    assert!(to_funding_rate(&context(raw), Some(dec("1")), trace(), &Clock::start()).is_none());
}

#[test]
fn unknown_coin_in_ctx_is_ignored() {
    let raw = r#"{"channel":"activeAssetCtx","data":{"coin":"DOGE",
        "ctx":{"funding":"0.0001"}}}"#;
    assert!(to_funding_rate(&context(raw), Some(dec("1")), trace(), &Clock::start()).is_none());
}

#[test]
fn subscribes_and_emits_normalized_book() {
    let mut source = HyperliquidMarketData::new(test_config());
    let mut backoff = source.backoff();
    source.begin_session(10, &mut backoff);
    let text = source.subscriptions(Symbol::Btc).book;
    assert!(text.contains(r#""type":"l2Book""#), "{text}");
    assert!(text.contains(r#""coin":"BTC""#), "{text}");

    match take(&mut source, L2_BOOK) {
        Reaction::Emit(book) => {
            assert_eq!(book.dex, Dex::Hyperliquid);
            assert_eq!(book.symbol, Symbol::Btc);
            assert_eq!(book.best_bid(), price("36000.5"));
            assert_eq!(book.best_ask(), price("36001.0"));
            assert_eq!(book.trace.exchange_ts_ms, Some(1700000000000));
            assert!(book.trace.normalize_latency().is_some());
            book.validate().unwrap();
        }
        other => panic!("{:?}", other),
    }
    source.book_sent();
    assert_eq!(source.books_emitted(), 1);
}

#[test]
fn survives_disconnect_and_resubscribes() {
    let mut source = HyperliquidMarketData::new(test_config());
    let mut backoff = source.backoff();
    for _ in 0..2 {
        source.begin_session(10, &mut backoff);
        assert_eq!(source.connection_status(), ConnectionStatus::Connected);
        assert!(source
            .subscriptions(Symbol::Btc)
            .book
            .contains(r#""coin":"BTC""#));
        assert!(matches!(take(&mut source, L2_BOOK), Reaction::Emit(_)));
        assert!(matches!(
            source.end_session(&mut backoff, SessionEnd::Closed),
            Next::Wait(_)
        ));
    }
}

#[test]
fn hyperliquid_reports_reconnect_exhausted_when_server_is_unreachable() {
    let mut source = HyperliquidMarketData::new(test_config());
    let mut backoff = source.backoff();
    source.end_session(&mut backoff, SessionEnd::Failed);
    assert!(matches!(
        source.end_session(&mut backoff, SessionEnd::Failed),
        Next::Stop(MarketDataError::ReconnectExhausted { .. })
    ));
    assert_eq!(source.connection_status(), ConnectionStatus::Disconnected);
}

#[test]
fn rates_are_published_where_they_are_wanted() {
    let mut source = HyperliquidMarketData::new(test_config()).with_funding(true, Some(dec("1")));
    assert!(source.subscriptions(Symbol::Eth).context.is_some());
    assert_eq!(source.ping_interval(), Duration::from_secs(30));

    source.subscribe_funding();
    match take(&mut source, ACTIVE_ASSET_CTX) {
        Reaction::Publish(rate) => assert_eq!(rate.current_rate, dec("0.0000125")),
        other => panic!("{:?}", other),
    }
    source.rate_sent(SendResult::Sent);
    assert_eq!(source.funding_channel().published(), 1);
    source.unsubscribe_funding();
    assert!(!source.funding_channel().is_registered());

    let plain = HyperliquidMarketData::new(test_config());
    assert!(plain.subscriptions(Symbol::Eth).context.is_none());
}

#[test]
fn refused_books_are_counted() {
    let mut source = HyperliquidMarketData::new(test_config());
    take(
        &mut source,
        r#"{"channel":"l2Book","data":{"coin":"SOL","time":1,"levels":[[]]}}"#,
    );
    source.on_message(&Incoming::Unreadable, trace(), &Clock::start());
    assert_eq!(source.metrics().parse_errors, 2);
}

#[test]
fn raw_messages_flow_through_to_a_csv_row() {
    let hl = hyperliquid_book(20);
    let edgex = edgex_book(20);
    hl.validate().unwrap();
    edgex.validate().unwrap();

    let mut store = BookStore::new();
    store.update(hl);
    store.update(edgex);

    let snapshot = store
        .divergence(
            Symbol::Btc,
            Dex::Hyperliquid,
            Dex::EdgeX,
            Dex::EdgeX,
            Some(dec("36000")),
            &Clock::start(),
        )
        .unwrap();

    assert_eq!(snapshot.mid_a.0, dec("36000.75"));
    assert_eq!(snapshot.mid_b.0, dec("36010.75"));
    assert!(snapshot.raw_spread_bps.is_less(dec("0")));
    assert_eq!(
        snapshot.executable_direction,
        ExecutableDirection::SellBBuyA
    );
    assert_eq!(snapshot.staleness_delta_ms, -20);
    assert_eq!(snapshot.exchange_latency_ms(Dex::Hyperliquid), Some(50));
    assert_eq!(snapshot.exchange_latency_ms(Dex::EdgeX), Some(60));
    assert!(snapshot.vwap_spread_bps.is_some());

    let cfg = RecordingConfig {
        csv_mode: CsvMode::All,
        ..Default::default()
    };
    let mut recorder = CsvRecorder::new(&cfg);
    let today = wall_ms_to_date(snapshot.computed_at_wall_ms);
    let row = match recorder.record(&snapshot, today) {
        Recording::Write { date, symbol, row } => {
            assert_eq!(
                csv_file_name(date, symbol),
                format!(
                    "{}_BTC.csv",
                    chrono::DateTime::from_timestamp_millis(snapshot.computed_at_wall_ms as i64)
                        .unwrap()
                        .format("%Y-%m-%d")
                )
            );
            recorder.row_written();
            row
        }
        Recording::Skip => panic!("the row was left out"),
    };
    assert_eq!(recorder.rows_written(), 1);

    let header = csv_header();
    assert_eq!(row.len(), header.len());
    let col = |name: &str| row[header.iter().position(|h| h == name).unwrap()].as_str();

    assert_eq!(col("symbol"), "BTC");
    assert_eq!(col("dex_a"), "hyperliquid");
    assert_eq!(col("dex_b"), "edgex");
    assert_eq!(col("mid_a"), "36000.75");
    assert_eq!(col("mid_b"), "36010.75");
    assert_eq!(col("best_bid_a"), "36000.5");
    assert_eq!(col("best_ask_b"), "36011");
    assert_eq!(col("staleness_delta_ms"), "-20");
    assert_eq!(col("latency_a_ms"), "50");
    assert_eq!(col("latency_b_ms"), "60");
    assert_eq!(col("depth_a_bps10"), "15");
    assert_eq!(col("depth_b_bps10"), "15");
    assert!(col("raw_spread_bps").starts_with('-'));
    assert!(!col("vwap_spread_bps").is_empty());
    assert!(!col("pipeline_latency_us").is_empty());
}

#[test]
fn one_sided_market_produces_no_row() {
    let mut store = BookStore::new();
    store.update(hyperliquid_book(20));
    assert!(store
        .divergence(
            Symbol::Btc,
            Dex::Hyperliquid,
            Dex::EdgeX,
            Dex::Hyperliquid,
            None,
            &Clock::start()
        )
        .is_none());
}

#[test]
fn crossed_book_is_refused() {
    let mut source = HyperliquidMarketData::new(test_config());
    let mut backoff = source.backoff();
    source.begin_session(10, &mut backoff);
    for (bid, ask) in [("36002", "36001"), ("36001", "36001")] {
        let before = source.metrics();
        let raw = format!(
            r#"{{"channel":"l2Book","data":{{"coin":"BTC","time":1,
                "levels":[[{{"px":"{bid}","sz":"1","n":1}}],[{{"px":"{ask}","sz":"1","n":1}}]]}}}}"#
        );
        assert!(matches!(take(&mut source, &raw), Reaction::Nothing));
        let after = source.metrics();
        assert_eq!(after.messages_received, before.messages_received + 1);
        assert_eq!(after.parse_errors, before.parse_errors + 1);
        assert_eq!(after.books_emitted, before.books_emitted);
        assert_eq!(after.crossed_books, 0);
    }
    assert!(matches!(take(&mut source, L2_BOOK), Reaction::Emit(_)));
}
