//! Lighter: messages, books and connections.

use perp_arb::book::OrderBook;
use perp_arb::config::LighterConfig;
use perp_arb::decimal::Decimal;
use perp_arb::json::Json;
use perp_arb::ladder::Quote;
use perp_arb::lighter::book_builder::{ApplyError, LighterBookBuilder};
use perp_arb::lighter::market_data::{Incoming, LighterMarketData, Reaction};
use perp_arb::lighter::message::{
    channel_index, collect_market_stats, market_stats_channel, order_book_channel, ping_message,
    pong_message, subscribe_message, unsubscribe_message, LighterEnvelope, LighterMessageKind,
    MarketStatsEntry, Num, OrderBookPayload, PriceSize, UpdateKind,
};
use perp_arb::num::{Price, Quantity};
use perp_arb::source::{MarketDataError, Next, SendResult, SessionEnd};
use perp_arb::symbol::{Dex, Symbol};
use perp_arb::time::{Clock, Duration};
use perp_arb::trace::MessageTrace;
use serde_json::Value;

const MARKET_STATS: &str = r#"{"type":"update/market_stats","channel":"market_stats:all",
    "market_stats":{
      "1":{"symbol":"BTC","market_id":1,"index_price":"36000.0","mark_price":"36000.1",
           "current_funding_rate":"0.0001","funding_rate":"0.0001"},
      "0":{"symbol":"ETH","market_id":0,"index_price":"2000.0","mark_price":"2000.1"}}}"#;

const SNAPSHOT: &str = r#"{"type":"subscribed/order_book","channel":"order_book:1",
    "last_updated_at":1700000000000,"offset":42,
    "order_book":{"code":0,"nonce":100,
      "bids":[{"price":"36000.5","size":"1.5"},{"price":"36000.0","size":"3.0"}],
      "asks":[{"price":"36001.0","size":"2.0"},{"price":"36002.0","size":"1.0"}]}}"#;

const UPDATE_OK: &str = r#"{"type":"update/order_book","channel":"order_book:1",
    "last_updated_at":1700000000050,"offset":999999,
    "order_book":{"begin_nonce":100,"nonce":101,
      "bids":[{"price":"36000.75","size":"0.5"}],"asks":[]}}"#;

const UPDATE_GAP: &str = r#"{"type":"update/order_book","channel":"order_book:1",
    "last_updated_at":1700000000100,
    "order_book":{"begin_nonce":500,"nonce":501,
      "bids":[{"price":"36000.9","size":"0.1"}],"asks":[]}}"#;

fn dec(text: &str) -> Decimal {
    Decimal::parse(text).unwrap()
}

fn price(text: &str) -> Option<Price> {
    Some(Price(dec(text)))
}

fn json(value: &Value) -> Json {
    match value {
        Value::Null => Json::Null,
        Value::Bool(b) => Json::Bool(*b),
        Value::Number(n) => Json::Number(n.to_string()),
        Value::String(s) => Json::Text(s.clone()),
        Value::Array(list) => Json::Array(list.iter().map(json).collect()),
        Value::Object(members) => {
            Json::Object(members.iter().map(|(k, v)| (k.clone(), json(v))).collect())
        }
    }
}

fn number(value: &Value) -> Option<Num> {
    match value {
        Value::Number(n) => n.as_u64().map(Num::Int),
        Value::String(s) => Some(Num::Str(s.clone())),
        _ => None,
    }
}

fn side(value: &Value) -> Vec<PriceSize> {
    match value.as_array() {
        Some(list) => list
            .iter()
            .map(|l| PriceSize::Object {
                price: dec(l["price"].as_str().unwrap()),
                size: dec(l["size"].as_str().unwrap()),
            })
            .collect(),
        None => vec![],
    }
}

fn parse(raw: &str) -> LighterEnvelope {
    let v: Value = serde_json::from_str(raw).unwrap();
    let levels = &v["order_book"];
    LighterEnvelope {
        kind: String::from(v["type"].as_str().unwrap_or("")),
        channel: v["channel"].as_str().map(String::from),
        order_book: if levels.is_null() {
            None
        } else {
            Some(OrderBookPayload {
                code: levels["code"].as_i64(),
                asks: side(&levels["asks"]),
                bids: side(&levels["bids"]),
                nonce: number(&levels["nonce"]),
                begin_nonce: number(&levels["begin_nonce"]),
                offset: number(&levels["offset"]),
            })
        },
        market_stats: v.get("market_stats").map(json),
        last_updated_at: number(&v["last_updated_at"]),
        nonce: number(&v["nonce"]),
        begin_nonce: number(&v["begin_nonce"]),
        offset: number(&v["offset"]),
    }
}

fn stats(raw: &str) -> Vec<MarketStatsEntry> {
    collect_market_stats(&parse(raw).market_stats.unwrap())
}

fn snapshot_into(b: &mut LighterBookBuilder, raw: &str) {
    let env = parse(raw);
    b.apply_snapshot(
        env.order_book.as_ref().unwrap(),
        env.nonce(),
        env.exchange_ts_ms(),
    );
}

fn builder_with_snapshot() -> LighterBookBuilder {
    let mut b = LighterBookBuilder::new(Symbol::Btc, 1, 100);
    snapshot_into(&mut b, SNAPSHOT);
    b
}

fn apply(b: &mut LighterBookBuilder, raw: &str) -> Result<(), ApplyError> {
    let env = parse(raw);
    b.apply_update(
        env.order_book.as_ref().unwrap(),
        env.begin_nonce(),
        env.nonce(),
        env.exchange_ts_ms(),
    )
}

fn trace() -> MessageTrace {
    MessageTrace::on_receive(&Clock::start())
}

fn book(b: &LighterBookBuilder) -> OrderBook {
    b.to_order_book(20, trace(), &Clock::start())
}

fn test_config() -> LighterConfig {
    LighterConfig {
        use_testnet: false,
        keepalive_interval_secs: 60,
        mapping_warn_secs: 300,
        reconnect_max_attempts: 1,
        reconnect_base_delay_ms: 10,
        reconnect_max_delay_ms: 20,
        ..Default::default()
    }
}

fn started(symbols: &[Symbol]) -> LighterMarketData {
    let mut source = LighterMarketData::new(test_config());
    let mut backoff = source.backoff();
    source.begin_session(symbols, 10, &mut backoff);
    source
}

fn take(source: &mut LighterMarketData, raw: &str) -> Reaction {
    source
        .on_message(&Incoming::Message(parse(raw)), trace(), &Clock::start())
        .unwrap()
}

#[test]
fn parses_order_book_snapshot() {
    let env = parse(SNAPSHOT);
    assert_eq!(env.message_kind(), LighterMessageKind::OrderBook);
    assert_eq!(env.update_kind(), Some(UpdateKind::Snapshot));
    assert_eq!(env.market_index(), Some(1));
    assert_eq!(env.exchange_ts_ms(), Some(1700000000000));
    assert_eq!(env.nonce(), Some(100));

    let ob = env.order_book.unwrap();
    assert_eq!(ob.bids[0].parts(), Some((dec("36000.5"), dec("1.5"))));
    assert_eq!(ob.asks.len(), 2);
}

#[test]
fn parses_order_book_update_with_nonces() {
    let raw = r#"{"type":"update/order_book","channel":"order_book:1",
        "last_updated_at":"1700000000050",
        "order_book":{"code":0,"begin_nonce":100,"nonce":101,"offset":"9999",
          "bids":[{"price":"36000.75","size":"0.5"}],"asks":[]}}"#;
    let env = parse(raw);
    assert_eq!(env.update_kind(), Some(UpdateKind::Update));
    assert_eq!(env.begin_nonce(), Some(100));
    assert_eq!(env.nonce(), Some(101));
    assert_eq!(env.exchange_ts_ms(), Some(1700000000050));
}

#[test]
fn nonce_can_live_at_top_level() {
    let raw = r#"{"channel":"order_book:2","begin_nonce":7,"nonce":8,
        "order_book":{"bids":[],"asks":[]}}"#;
    let env = parse(raw);
    assert_eq!(env.begin_nonce(), Some(7));
    assert_eq!(env.nonce(), Some(8));
    assert_eq!(env.update_kind(), None);
}

#[test]
fn extracts_market_index_from_channel() {
    assert_eq!(channel_index("order_book:0"), Some(0));
    assert_eq!(channel_index("order_book:15"), Some(15));
    assert_eq!(channel_index("order_book/15"), Some(15));
    assert_eq!(channel_index("market_stats:all"), None);
}

#[test]
fn collects_market_stats_mapping() {
    let raw = r#"{"channel":"market_stats:0","market_stats":{
        "symbol":"ETH","market_id":0,"index_price":"2000.0","mark_price":"2000.5",
        "current_funding_rate":"0.0001","funding_rate":"0.0001"}}"#;
    assert_eq!(parse(raw).message_kind(), LighterMessageKind::MarketStats);

    let stats = stats(raw);
    assert_eq!(stats.len(), 1);
    assert_eq!(stats[0].symbol, "ETH");
    assert_eq!(stats[0].market_id, 0);
}

#[test]
fn collects_funding_fields_from_market_stats() {
    let raw = r#"{"channel":"market_stats:0","market_stats":{
        "symbol":"ETH","market_id":0,"index_price":"2000.0","mark_price":"2000.5",
        "current_funding_rate":"0.0000125","funding_rate":"0.0000130",
        "next_funding_time":1700000003600}}"#;
    let stats = stats(raw);

    let e = &stats[0];
    assert!(e.has_funding());
    assert_eq!(e.index_price, Some(dec("2000.0")));
    assert_eq!(e.mark_price, Some(dec("2000.5")));
    assert_eq!(e.current_funding_rate, Some(dec("0.0000125")));
    assert_eq!(e.funding_rate, Some(dec("0.0000130")));
    assert_eq!(e.next_funding_time_ms, Some(1700000003600));
}

#[test]
fn collects_liquidity_metrics_from_market_stats() {
    let raw = r#"{"channel":"market_stats:0","market_stats":{
        "symbol":"BTC","market_id":1,"mark_price":"36000.5",
        "current_funding_rate":"0.0000125","open_interest":"1234.5",
        "daily_quote_token_volume":"987654321.0",
        "daily_base_token_volume":"27000.0"}}"#;
    let stats = stats(raw);
    let e = &stats[0];

    assert_eq!(e.open_interest, Some(dec("1234.5")));
    assert_eq!(e.volume_24h_usd(), Some(dec("987654321.0")));
}

#[test]
fn base_volume_is_converted_with_price_only() {
    let raw = r#"{"channel":"market_stats:0","market_stats":{
        "symbol":"BTC","market_id":1,"mark_price":"36000",
        "daily_base_token_volume":"10"}}"#;
    assert_eq!(stats(raw)[0].volume_24h_usd(), Some(dec("360000")));

    let raw = r#"{"channel":"market_stats:0","market_stats":{
        "symbol":"BTC","market_id":1,"daily_base_token_volume":"10"}}"#;
    assert_eq!(stats(raw)[0].volume_24h_usd(), None);
}

#[test]
fn market_stats_without_funding_is_still_usable_for_mapping() {
    let raw = r#"{"channel":"market_stats:all","market_stats":{
        "0":{"symbol":"ETH","market_id":0}}}"#;
    let stats = stats(raw);
    assert!(!stats[0].has_funding());
    assert_eq!(stats[0].market_id, 0);
}

#[test]
fn collects_market_stats_from_map_form() {
    let raw = r#"{"channel":"market_stats:all","market_stats":{
        "0":{"symbol":"ETH","market_id":0},
        "1":{"symbol":"BTC","market_id":"1"},
        "24":{"symbol":"HYPE","market_id":24}}}"#;
    let mut stats: Vec<(String, u32)> = stats(raw)
        .into_iter()
        .map(|e| (e.symbol, e.market_id))
        .collect();
    stats.sort();
    assert_eq!(
        stats,
        vec![
            (String::from("BTC"), 1),
            (String::from("ETH"), 0),
            (String::from("HYPE"), 24),
        ]
    );
}

#[test]
fn numeric_rates_are_read_without_precision_loss() {
    let raw = r#"{"channel":"market_stats:0","market_stats":{
        "symbol":"BTC","market_id":1,"current_funding_rate":0.0000125}}"#;
    assert_eq!(
        stats(raw)[0].current_funding_rate,
        Some(dec("0.0000125"))
    );
}

#[test]
fn message_classifies_control_messages() {
    assert_eq!(
        parse(r#"{"type":"ping"}"#).message_kind(),
        LighterMessageKind::Ping
    );
    assert_eq!(
        parse(r#"{"type":"pong"}"#).message_kind(),
        LighterMessageKind::Pong
    );
    assert_eq!(
        parse(r#"{"type":"connected"}"#).message_kind(),
        LighterMessageKind::Control
    );
    assert_eq!(
        parse(r#"{"type":"error","message":"bad channel"}"#).message_kind(),
        LighterMessageKind::Error
    );
    assert_eq!(
        parse(r#"{"type":"whatever"}"#).message_kind(),
        LighterMessageKind::Unknown
    );
}

#[test]
fn builds_channels_and_control_messages() {
    assert_eq!(order_book_channel(24), "order_book:24");
    assert_eq!(market_stats_channel(), "market_stats:all");
    assert_eq!(
        subscribe_message("order_book:24"),
        r#"{"type":"subscribe","channel":"order_book:24"}"#
    );
    assert_eq!(
        unsubscribe_message("order_book:24"),
        r#"{"type":"unsubscribe","channel":"order_book:24"}"#
    );
    assert_eq!(ping_message(), r#"{"type":"ping"}"#);
    assert_eq!(pong_message(), r#"{"type":"pong"}"#);
}

#[test]
fn lighter_snapshot_builds_sorted_book() {
    let b = builder_with_snapshot();
    let book = book(&b);
    assert_eq!(book.dex, Dex::Lighter);
    assert_eq!(book.symbol, Symbol::Btc);
    assert_eq!(book.best_bid(), price("36000.5"));
    assert_eq!(book.best_ask(), price("36001.0"));
    assert_eq!(book.trace.exchange_ts_ms, Some(1700000000000));
    assert_eq!(b.last_nonce(), Some(100));
    assert_eq!(b.market_index(), 1);
    book.validate().unwrap();
}

#[test]
fn update_applies_inserts_and_deletes() {
    let mut b = builder_with_snapshot();
    apply(
        &mut b,
        r#"{"type":"update/order_book","channel":"order_book:1",
            "last_updated_at":1700000000050,
            "order_book":{"begin_nonce":100,"nonce":101,
              "bids":[{"price":"36000.75","size":"0.5"},{"price":"36000.0","size":"0"}],
              "asks":[{"price":"36001.0","size":"5"}]}}"#,
    )
    .unwrap();

    let book = book(&b);
    assert_eq!(book.best_bid(), price("36000.75"));
    assert!(book.bids.iter().all(|l| l.price != Price(dec("36000.0"))));
    assert_eq!(book.asks[0].quantity, Quantity(dec("5")));
    assert_eq!(b.last_nonce(), Some(101));
    assert_eq!(book.trace.exchange_ts_ms, Some(1700000000050));
    book.validate().unwrap();
}

#[test]
fn detects_nonce_gap() {
    let mut b = builder_with_snapshot();
    let refused = apply(
        &mut b,
        r#"{"type":"update/order_book","channel":"order_book:1",
            "order_book":{"begin_nonce":105,"nonce":106,
              "bids":[{"price":"36000.9","size":"1"}],"asks":[]}}"#,
    );
    assert_eq!(
        refused,
        Err(ApplyError::NonceGap {
            expected: 100,
            got: 105
        })
    );
    assert_eq!(
        refused.unwrap_err().message(),
        "nonce 欠損: begin_nonce=105, 期待値=100"
    );
    assert_eq!(book(&b).best_bid(), price("36000.5"));
}

#[test]
fn offset_jumps_do_not_break_ordering() {
    let mut b = builder_with_snapshot();
    apply(
        &mut b,
        r#"{"type":"update/order_book","channel":"order_book:1","offset":999999999,
            "order_book":{"begin_nonce":100,"nonce":101,"offset":1,
              "bids":[{"price":"36000.75","size":"0.5"}],"asks":[]}}"#,
    )
    .unwrap();
    assert_eq!(book(&b).best_bid(), price("36000.75"));
}

#[test]
fn rejects_update_before_snapshot() {
    let mut b = LighterBookBuilder::new(Symbol::Eth, 0, 100);
    assert_eq!(
        apply(
            &mut b,
            r#"{"type":"update/order_book","order_book":{"begin_nonce":1,"nonce":2,
                "bids":[{"price":"2000","size":"1"}],"asks":[]}}"#,
        ),
        Err(ApplyError::NotInitialized)
    );
}

#[test]
fn sequential_updates_keep_book_consistent() {
    let mut b = builder_with_snapshot();
    for (begin, nonce, price, size) in [
        (100u64, 101u64, "36000.6", "1"),
        (101, 102, "36000.7", "2"),
        (102, 103, "36000.6", "0"),
    ] {
        apply(
            &mut b,
            &format!(
                r#"{{"type":"update/order_book","order_book":{{"begin_nonce":{begin},"nonce":{nonce},
                    "bids":[{{"price":"{price}","size":"{size}"}}],"asks":[]}}}}"#
            ),
        )
        .unwrap();
    }
    let book = book(&b);
    assert_eq!(book.best_bid(), price("36000.7"));
    assert!(book.bids.iter().all(|l| l.price != Price(dec("36000.6"))));
    assert_eq!(b.last_nonce(), Some(103));
}

#[test]
fn deleting_unknown_level_is_harmless() {
    let mut b = builder_with_snapshot();
    apply(
        &mut b,
        r#"{"type":"update/order_book","order_book":{"begin_nonce":100,"nonce":101,
            "bids":[{"price":"1.0","size":"0"}],"asks":[{"price":"999999.0","size":"0"}]}}"#,
    )
    .unwrap();
    let book = book(&b);
    assert_eq!(book.bids.len(), 2);
    assert_eq!(book.asks.len(), 2);
}

#[test]
fn reset_clears_state() {
    let mut b = builder_with_snapshot();
    b.reset();
    assert!(!b.is_initialized());
    assert_eq!(b.last_nonce(), None);
    assert!(book(&b).best_bid().is_none());
}

#[test]
fn lighter_trims_to_max_levels() {
    let mut b = LighterBookBuilder::new(Symbol::Btc, 1, 1);
    snapshot_into(&mut b, SNAPSHOT);
    let book = book(&b);
    assert_eq!(book.bids.len(), 1);
    assert_eq!(book.asks.len(), 1);
    assert_eq!(book.best_bid(), price("36000.5"));
}

#[test]
fn zero_size_levels_in_snapshot_are_ignored() {
    let mut b = LighterBookBuilder::new(Symbol::Sol, 3, 100);
    snapshot_into(
        &mut b,
        r#"{"order_book":{"nonce":1,
            "bids":[{"price":"100","size":"1"},{"price":"99","size":"0"}],
            "asks":[{"price":"101","size":"1"}]}}"#,
    );
    assert_eq!(book(&b).bids.len(), 1);
}

#[test]
fn resolves_market_index_then_rebuilds_book() {
    let mut source = started(&[Symbol::Btc]);
    match take(&mut source, MARKET_STATS) {
        Reaction::Stats { rates, channels } => {
            // Nobody asked for rates.
            assert!(rates.is_empty());
            assert_eq!(channels, vec![String::from("order_book:1")]);
            assert_eq!(
                subscribe_message(&channels[0]),
                r#"{"type":"subscribe","channel":"order_book:1"}"#
            );
        }
        other => panic!("{:?}", other),
    }
    match take(&mut source, SNAPSHOT) {
        Reaction::Emit(book) => {
            assert_eq!(book.dex, Dex::Lighter);
            assert_eq!(book.symbol, Symbol::Btc);
            assert_eq!(book.best_bid(), price("36000.5"));
            assert_eq!(book.best_ask(), price("36001.0"));
            assert_eq!(book.trace.exchange_ts_ms, Some(1700000000000));
            book.validate().unwrap();
        }
        other => panic!("{:?}", other),
    }
    match take(&mut source, UPDATE_OK) {
        Reaction::Emit(updated) => {
            assert_eq!(updated.best_bid(), price("36000.75"));
            assert_eq!(updated.bids.len(), 3);
            updated.validate().unwrap();
        }
        other => panic!("{:?}", other),
    }
    source.book_sent();
    assert_eq!(source.metrics().books_emitted, 1);
}

#[test]
fn resubscribes_when_nonce_gap_is_detected() {
    let mut source = started(&[Symbol::Btc]);
    take(&mut source, MARKET_STATS);
    assert!(matches!(take(&mut source, SNAPSHOT), Reaction::Emit(_)));
    match take(&mut source, UPDATE_GAP) {
        Reaction::Resubscribe(channel) => {
            assert_eq!(
                unsubscribe_message(&channel),
                r#"{"type":"unsubscribe","channel":"order_book:1"}"#
            );
            assert_eq!(
                subscribe_message(&channel),
                r#"{"type":"subscribe","channel":"order_book:1"}"#
            );
        }
        other => panic!("{:?}", other),
    }
    match take(&mut source, SNAPSHOT) {
        Reaction::Emit(rebuilt) => assert_eq!(rebuilt.best_bid(), price("36000.5")),
        other => panic!("{:?}", other),
    }
    assert!(source.metrics().sequence_gaps > 0);
}

#[test]
fn unresolved_symbols_are_skipped_not_fatal() {
    let mut source = started(&[Symbol::Btc, Symbol::Hype]);
    assert_eq!(source.unresolved(), vec![Symbol::Btc, Symbol::Hype]);
    match take(&mut source, MARKET_STATS) {
        Reaction::Stats { channels, .. } => {
            assert_eq!(channels, vec![String::from("order_book:1")]);
        }
        other => panic!("{:?}", other),
    }
    assert_eq!(source.unresolved(), vec![Symbol::Hype]);
    match take(&mut source, SNAPSHOT) {
        Reaction::Emit(book) => assert_eq!(book.symbol, Symbol::Btc),
        other => panic!("{:?}", other),
    }
}

#[test]
fn lighter_reports_reconnect_exhausted_when_server_is_unreachable() {
    let mut source = LighterMarketData::new(test_config());
    let mut backoff = source.backoff();
    source.end_session(&mut backoff, SessionEnd::Failed);
    assert!(matches!(
        source.end_session(&mut backoff, SessionEnd::Failed),
        Next::Stop(MarketDataError::ReconnectExhausted { .. })
    ));
}

#[test]
fn rates_come_with_the_statistics() {
    let mut source = LighterMarketData::new(test_config()).with_funding(true, Some(dec("1")));
    let mut backoff = source.backoff();
    source.begin_session(&[Symbol::Btc], 10, &mut backoff);
    source.subscribe_funding().unwrap();
    match take(&mut source, MARKET_STATS) {
        Reaction::Stats { rates, .. } => {
            assert_eq!(rates.len(), 1);
            assert_eq!(rates[0].symbol, Symbol::Btc);
            assert_eq!(rates[0].current_rate, dec("0.0001"));
            assert_eq!(rates[0].mark_price, price("36000.1"));
        }
        other => panic!("{:?}", other),
    }
    assert!(source.rate_sent(SendResult::Sent));
    assert_eq!(source.funding_channel().published(), 1);
    source.unsubscribe_funding();
    assert!(!source.funding_channel().is_registered());

    let mut plain = LighterMarketData::new(test_config());
    assert!(plain.subscribe_funding().is_err());
}

#[test]
fn lighter_answers_pings_and_counts_unreadable_messages() {
    let mut source = started(&[Symbol::Btc]);
    assert!(matches!(
        take(&mut source, r#"{"type":"ping"}"#),
        Reaction::Pong
    ));
    source
        .on_message(&Incoming::Unreadable, trace(), &Clock::start())
        .unwrap();
    assert_eq!(source.metrics().parse_errors, 1);
    assert_eq!(source.keepalive_interval(), Duration::from_secs(60));
    assert_eq!(source.mapping_warn_after(), Duration::from_secs(300));
}

#[test]
fn channel_gives_its_market_back() {
    for index in [0, 1, 9, 10, 65_536, u32::MAX] {
        assert_eq!(channel_index(&order_book_channel(index)), Some(index));
        assert_eq!(channel_index(&format!("order_book/{index}")), Some(index));
    }
    assert_eq!(channel_index(market_stats_channel()), None);
    assert_eq!(channel_index("order_book:4294967296"), None);
}
