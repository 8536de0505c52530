//! edgeX: messages, books and connections.

use perp_arb::book::OrderBook;
use perp_arb::by_symbol::BySymbol;
use perp_arb::config::EdgeXConfig;
use perp_arb::decimal::Decimal;
use perp_arb::edgex::book_builder::{ApplyError, BookBuilder, SnapshotCheck};
use perp_arb::edgex::market_data::{resubscribe_messages, EdgeXMarketData, Incoming, Reaction};
use perp_arb::edgex::message::{
    contract_id_from_channel, depth_channel, ping_message, pong_message, subscribe_message,
    unsubscribe_message, DataType, DepthData, EdgeXEnvelope, EdgeXMessageKind, Num, QuoteContent,
    RawLevel,
};
use perp_arb::edgex::meta::extract_contract_ids;
use perp_arb::json::Json;
use perp_arb::ladder::Quote;
use perp_arb::num::{Price, Quantity};
use perp_arb::source::MarketDataError;
use perp_arb::symbol::{Dex, Symbol};
use perp_arb::time::Clock;
use perp_arb::trace::MessageTrace;
use serde_json::Value;

const SNAPSHOT_SAMPLE: &str = r#"{
    "type": "quote-event",
    "channel": "depth.10000001.15",
    "ts": 1700000000123,
    "content": {
        "dataType": "Snapshot",
        "channel": "depth.10000001.15",
        "data": [{
            "contractId": "10000001",
            "contractName": "BTCUSD",
            "startVersion": "100",
            "endVersion": "100",
            "level": 15,
            "asks": [["36001.0", "2.0"], ["36002.5", "4.0"]],
            "bids": [["36000.5", "1.5"], ["36000.0", "3.0"]]
        }]
    }
}"#;

const SNAPSHOT: &str = r#"{"type":"quote-event","channel":"depth.10000001.15","ts":1700000000000,
    "content":{"dataType":"Snapshot","data":[{"contractId":"10000001",
      "startVersion":"100","endVersion":"100",
      "bids":[["36000.5","1.5"],["36000.0","2.0"]],
      "asks":[["36001.0","2.0"],["36002.0","1.0"]]}]}}"#;

const DIFF_OK: &str = r#"{"type":"quote-event","channel":"depth.10000001.15","ts":1700000000100,
    "content":{"dataType":"Changed","data":[{"contractId":"10000001",
      "startVersion":"100","endVersion":"101",
      "bids":[["36000.75","0.5"]],"asks":[]}]}}"#;

const DIFF_GAP: &str = r#"{"type":"quote-event","channel":"depth.10000001.15","ts":1700000000200,
    "content":{"dataType":"Changed","data":[{"contractId":"10000001",
      "startVersion":"150","endVersion":"151",
      "bids":[["36000.9","0.1"]],"asks":[]}]}}"#;

fn dec(text: &str) -> Decimal {
    Decimal::parse(text).unwrap()
}

fn price(text: &str) -> Option<Price> {
    Some(Price(dec(text)))
}

fn json(value: &Value) -> Json {
    match value {
        Value::Null => Json::Null,
        Value::Bool(b) => Json::Bool(*b),
        Value::Number(n) => Json::Number(n.to_string()),
        Value::String(s) => Json::Text(s.clone()),
        Value::Array(list) => Json::Array(list.iter().map(json).collect()),
        Value::Object(members) => {
            Json::Object(members.iter().map(|(k, v)| (k.clone(), json(v))).collect())
        }
    }
}

fn text(value: &Value) -> Option<String> {
    value.as_str().map(String::from)
}

fn number(value: &Value) -> Option<Num> {
    match value {
        Value::Number(n) => n.as_u64().map(Num::Int),
        Value::String(s) => Some(Num::Str(s.clone())),
        _ => None,
    }
}

fn level(value: &Value) -> RawLevel {
    match value {
        Value::Array(list) => {
            RawLevel::Tuple(list.iter().map(|v| dec(v.as_str().unwrap())).collect())
        }
        _ => RawLevel::Object {
            price: dec(value["price"].as_str().unwrap()),
            size: dec(value["size"].as_str().unwrap()),
        },
    }
}

fn side(value: &Value) -> Vec<RawLevel> {
    match value.as_array() {
        Some(list) => list.iter().map(level).collect(),
        None => vec![],
    }
}

fn depth_data(v: &Value) -> DepthData {
    DepthData {
        contract_id: text(&v["contractId"]),
        contract_name: text(&v["contractName"]),
        start_version: number(&v["startVersion"]),
        end_version: number(&v["endVersion"]),
        level: v["level"].as_u64().map(|n| n as u32),
        asks: side(&v["asks"]),
        bids: side(&v["bids"]),
    }
}

fn parse(raw: &str) -> EdgeXEnvelope {
    let v: Value = serde_json::from_str(raw).unwrap();
    let content = &v["content"];
    EdgeXEnvelope {
        kind: text(&v["type"]).unwrap_or_default(),
        channel: text(&v["channel"]),
        content: if content.is_null() {
            None
        } else {
            Some(QuoteContent {
                data_type: text(&content["dataType"]),
                channel: text(&content["channel"]),
                data: match content["data"].as_array() {
                    Some(list) => list.iter().map(depth_data).collect(),
                    None => vec![],
                },
            })
        },
        ts: number(&v["ts"]),
        time: number(&v["time"]),
    }
}

fn depth_from(raw: &str) -> DepthData {
    parse(raw).content.unwrap().data.into_iter().next().unwrap()
}

fn snapshot_json(start: u64, end: u64) -> String {
    format!(
        r#"{{"type":"quote-event","content":{{"dataType":"Snapshot","data":[{{
            "contractId":"10000001","startVersion":{start},"endVersion":{end},
            "bids":[["100.0","1"],["99.0","2"],["98.0","3"]],
            "asks":[["101.0","1"],["102.0","2"],["103.0","3"]]}}]}}}}"#
    )
}

fn builder_with_snapshot() -> BookBuilder {
    let mut b = BookBuilder::new(Symbol::Btc, 20);
    let check = b.apply_snapshot(&depth_from(&snapshot_json(100, 100)));
    assert!(!check.was_initialized);
    b
}

fn trace() -> MessageTrace {
    MessageTrace::on_receive(&Clock::start())
}

fn book_of(b: &BookBuilder) -> OrderBook {
    b.to_order_book(20, Some(1), trace(), &Clock::start())
}

fn test_config() -> EdgeXConfig {
    EdgeXConfig {
        resolve_contract_ids: false,
        contract_ids: vec![(Symbol::Btc, String::from("10000001"))],
        depth_level: 15,
        resync_interval_secs: 0,
        reconnect_max_attempts: 1,
        reconnect_base_delay_ms: 10,
        reconnect_max_delay_ms: 20,
        ..Default::default()
    }
}

fn started() -> EdgeXMarketData {
    let mut source = EdgeXMarketData::new(test_config());
    let ids = source.resolve_contract_ids(&[Symbol::Btc], &None).unwrap();
    let mut backoff = source.backoff();
    let channels = source.begin_session(&ids, 10, &mut backoff);
    assert_eq!(channels, vec![String::from("depth.10000001.15")]);
    assert_eq!(
        subscribe_message(&channels[0]),
        r#"{"type":"subscribe","channel":"depth.10000001.15"}"#
    );
    source
}

fn take(source: &mut EdgeXMarketData, raw: &str) -> Reaction {
    source.on_message(&Incoming::Message(parse(raw)), trace(), &Clock::start())
}

#[test]
fn parses_snapshot_sample() {
    let env = parse(SNAPSHOT_SAMPLE);
    assert_eq!(env.message_kind(), EdgeXMessageKind::Depth);
    assert_eq!(env.data_type(), DataType::Snapshot);
    assert_eq!(env.exchange_ts_ms(), Some(1700000000123));

    let depth = env.depth().unwrap();
    assert_eq!(depth.contract_id.as_deref(), Some("10000001"));
    assert_eq!(depth.end_version_u64(), Some(100));
    assert_eq!(depth.bids[0].parts(), Some((dec("36000.5"), dec("1.5"))));
    assert_eq!(depth.asks.len(), 2);
}

#[test]
fn parses_changed_event() {
    let raw = r#"{"type":"quote-event","channel":"depth.10000001.15","ts":"1700000000200",
        "content":{"dataType":"Changed","data":[{"contractId":"10000001",
          "startVersion":100,"endVersion":101,
          "asks":[["36001.0","0"]],"bids":[["36000.75","0.5"]]}]}}"#;
    let env = parse(raw);
    assert_eq!(env.data_type(), DataType::Changed);
    assert_eq!(env.exchange_ts_ms(), Some(1700000000200));
    let depth = env.depth().unwrap();
    assert_eq!(depth.start_version_u64(), Some(100));
    assert_eq!(depth.end_version_u64(), Some(101));
    assert_eq!(depth.asks[0].parts(), Some((dec("36001.0"), dec("0"))));
}

#[test]
fn accepts_object_style_levels() {
    let raw = r#"{"type":"quote-event","content":{"dataType":"Snapshot","data":[{
        "contractId":"10000002",
        "asks":[{"price":"2001.0","size":"1"}],
        "bids":[{"price":"2000.0","size":"2"}]}]}}"#;
    let env = parse(raw);
    let depth = env.depth().unwrap();
    assert_eq!(depth.asks[0].parts(), Some((dec("2001.0"), dec("1"))));
    assert_eq!(depth.bids[0].parts(), Some((dec("2000.0"), dec("2"))));
}

#[test]
fn tolerates_extra_array_elements_and_fields() {
    let raw = r#"{"type":"quote-event","unknownField":1,"content":{"dataType":"Snapshot",
        "data":[{"contractId":"10000001","futureField":true,
          "asks":[["36001.0","2.0","7"]],"bids":[]}]}}"#;
    let env = parse(raw);
    let depth = env.depth().unwrap();
    assert_eq!(depth.asks[0].parts(), Some((dec("36001.0"), dec("2.0"))));
}

#[test]
fn edgex_classifies_control_messages() {
    assert_eq!(
        parse(r#"{"type":"ping","time":"17"}"#).message_kind(),
        EdgeXMessageKind::Ping
    );
    assert_eq!(
        parse(r#"{"type":"pong"}"#).message_kind(),
        EdgeXMessageKind::Pong
    );
    assert_eq!(
        parse(r#"{"type":"subscribed","channel":"depth.1.15"}"#).message_kind(),
        EdgeXMessageKind::Control
    );
    assert_eq!(
        parse(r#"{"type":"error","content":{"msg":"bad channel"}}"#).message_kind(),
        EdgeXMessageKind::Error
    );
    let ticker =
        parse(r#"{"type":"quote-event","channel":"ticker.10000001","content":{"data":[{}]}}"#);
    assert!(ticker.depth().is_none());
    assert_eq!(ticker.message_kind(), EdgeXMessageKind::Control);
}

#[test]
fn data_type_parsing_is_lenient() {
    assert_eq!(DataType::parse("Snapshot"), DataType::Snapshot);
    assert_eq!(DataType::parse("SNAPSHOT"), DataType::Snapshot);
    assert_eq!(DataType::parse("Changed"), DataType::Changed);
    assert_eq!(DataType::parse("DELTA"), DataType::Changed);
    assert_eq!(DataType::parse("weird"), DataType::Unknown);
}

#[test]
fn builds_channel_and_control_messages() {
    assert_eq!(depth_channel("10000001", 15), "depth.10000001.15");
    assert_eq!(
        subscribe_message("depth.10000001.15"),
        r#"{"type":"subscribe","channel":"depth.10000001.15"}"#
    );
    assert_eq!(
        unsubscribe_message("depth.1.15"),
        r#"{"type":"unsubscribe","channel":"depth.1.15"}"#
    );
    assert_eq!(ping_message(42), r#"{"type":"ping","time":"42"}"#);
    assert_eq!(pong_message(42), r#"{"type":"pong","time":"42"}"#);
}

#[test]
fn parses_contract_id_from_channel() {
    assert_eq!(
        contract_id_from_channel("depth.10000001.15").as_deref(),
        Some("10000001")
    );
    assert_eq!(contract_id_from_channel("ticker.10000001"), None);
    assert_eq!(contract_id_from_channel("depth"), None);
}

#[test]
fn extracts_from_documented_shape() {
    let body: Value = serde_json::from_str(
        r#"{"code":"SUCCESS","data":{"contractList":[
            {"contractId":"10000001","contractName":"BTCUSD","tickSize":"0.1"},
            {"contractId":"10000002","contractName":"ETHUSD"},
            {"contractId":"10000003","contractName":"SOLUSD"},
            {"contractId":"10000099","contractName":"DOGEUSD"}
        ]}}"#,
    )
    .unwrap();

    let ids = extract_contract_ids(&json(&body));
    assert_eq!(ids.get(Symbol::Btc).map(|s| s.as_str()), Some("10000001"));
    assert_eq!(ids.get(Symbol::Eth).map(|s| s.as_str()), Some("10000002"));
    assert_eq!(ids.get(Symbol::Sol).map(|s| s.as_str()), Some("10000003"));
    assert!(!ids.contains(Symbol::Hype));
}

#[test]
fn handles_numeric_ids_and_alternative_nesting() {
    let body: Value = serde_json::from_str(
        r#"{"result":{"perpetual":{"list":[{"contractId":10000001,"contractName":"BTCUSD"}]}}}"#,
    )
    .unwrap();
    let ids = extract_contract_ids(&json(&body));
    assert_eq!(ids.get(Symbol::Btc).map(|s| s.as_str()), Some("10000001"));
}

#[test]
fn returns_empty_for_unrelated_json() {
    let body: Value = serde_json::from_str(r#"{"code":"ERROR","msg":"nope"}"#).unwrap();
    let ids = extract_contract_ids(&json(&body));
    assert!(Symbol::ALL.iter().all(|s| !ids.contains(*s)));
}

#[test]
fn edgex_snapshot_builds_sorted_book() {
    let b = builder_with_snapshot();
    let book = book_of(&b);
    assert_eq!(book.dex, Dex::EdgeX);
    assert_eq!(book.best_bid(), price("100"));
    assert_eq!(book.best_ask(), price("101"));
    assert_eq!(book.bids.len(), 3);
    assert_eq!(book.asks.len(), 3);
    book.validate().unwrap();
    assert_eq!(b.last_version(), Some(100));
}

#[test]
fn diff_updates_inserts_and_deletes() {
    let mut b = builder_with_snapshot();
    let diff = depth_from(
        r#"{"type":"quote-event","content":{"dataType":"Changed","data":[{
            "contractId":"10000001","startVersion":100,"endVersion":101,
            "bids":[["100.5","0.7"],["99.0","0"]],
            "asks":[["101.0","5"]]}]}}"#,
    );
    b.apply_diff(&diff).unwrap();

    let book = book_of(&b);
    assert_eq!(book.best_bid(), price("100.5"));
    assert_eq!(book.bids.len(), 3);
    assert!(book.bids.iter().all(|l| l.price != Price(dec("99"))));
    assert_eq!(book.asks[0].quantity, Quantity(dec("5")));
    assert_eq!(b.last_version(), Some(101));
    book.validate().unwrap();
}

#[test]
fn book_builder_sequential_diffs_keep_book_consistent() {
    let mut b = builder_with_snapshot();
    for (start, end, price, size) in [
        (100u64, 101u64, "100.1", "1"),
        (101, 102, "100.2", "2"),
        (102, 103, "100.1", "0"),
    ] {
        let diff = depth_from(&format!(
            r#"{{"type":"quote-event","content":{{"dataType":"Changed","data":[{{
                "startVersion":{start},"endVersion":{end},
                "bids":[["{price}","{size}"]],"asks":[]}}]}}}}"#
        ));
        b.apply_diff(&diff).unwrap();
    }
    let book = book_of(&b);
    assert_eq!(book.best_bid(), price("100.2"));
    assert!(book.bids.iter().all(|l| l.price != Price(dec("100.1"))));
    assert_eq!(b.last_version(), Some(103));
}

#[test]
fn detects_version_gap() {
    let mut b = builder_with_snapshot();
    let diff = depth_from(
        r#"{"type":"quote-event","content":{"dataType":"Changed","data":[{
            "startVersion":105,"endVersion":106,
            "bids":[["100.5","1"]],"asks":[]}]}}"#,
    );
    let refused = b.apply_diff(&diff);
    assert_eq!(
        refused,
        Err(ApplyError::VersionGap {
            expected: 100,
            got: Some(105)
        })
    );
    assert_eq!(
        refused.unwrap_err().message(),
        "バージョン欠損: expected=100, got=Some(105)"
    );
    assert_eq!(book_of(&b).best_bid(), price("100"));
}

#[test]
fn rejects_diff_before_snapshot() {
    let mut b = BookBuilder::new(Symbol::Eth, 20);
    let diff = depth_from(
        r#"{"type":"quote-event","content":{"dataType":"Changed","data":[{
            "startVersion":1,"endVersion":2,"bids":[["100","1"]],"asks":[]}]}}"#,
    );
    assert_eq!(b.apply_diff(&diff), Err(ApplyError::NotInitialized));
}

#[test]
fn skips_version_check_when_api_omits_versions() {
    let mut b = builder_with_snapshot();
    let diff = depth_from(
        r#"{"type":"quote-event","content":{"dataType":"Changed","data":[{
            "bids":[["100.5","1"]],"asks":[]}]}}"#,
    );
    assert!(b.apply_diff(&diff).is_ok());
    assert_eq!(book_of(&b).best_bid(), price("100.5"));
}

#[test]
fn snapshot_check_reports_no_mismatch_when_in_sync() {
    let mut b = builder_with_snapshot();
    let check = b.apply_snapshot(&depth_from(&snapshot_json(100, 100)));
    assert_eq!(
        check,
        SnapshotCheck {
            was_initialized: true,
            mismatched_levels: 0
        }
    );
}

#[test]
fn snapshot_check_detects_local_drift() {
    let mut b = builder_with_snapshot();
    let missed = depth_from(
        r#"{"type":"quote-event","content":{"dataType":"Changed","data":[{
            "startVersion":100,"endVersion":101,
            "bids":[["100.0","0"]],"asks":[]}]}}"#,
    );
    b.apply_diff(&missed).unwrap();
    let check = b.apply_snapshot(&depth_from(&snapshot_json(101, 102)));
    assert!(check.was_initialized);
    assert!(check.mismatched_levels > 0);
    assert_eq!(book_of(&b).best_bid(), price("100"));
}

#[test]
fn edgex_trims_to_max_levels() {
    let mut b = BookBuilder::new(Symbol::Sol, 2);
    b.apply_snapshot(&depth_from(&snapshot_json(1, 1)));
    let book = book_of(&b);
    assert_eq!(book.bids.len(), 2);
    assert_eq!(book.asks.len(), 2);
    assert_eq!(book.best_bid(), price("100"));
    assert_eq!(book.bids[1].price, Price(dec("99")));
    assert_eq!(book.asks[1].price, Price(dec("102")));
}

#[test]
fn trims_after_diffs_so_memory_stays_bounded() {
    let mut b = BookBuilder::new(Symbol::Hype, 3);
    b.apply_snapshot(&depth_from(&snapshot_json(1, 1)));
    for i in 0..100 {
        let price = 90 - i;
        let diff = depth_from(&format!(
            r#"{{"type":"quote-event","content":{{"dataType":"Changed","data":[{{
                "bids":[["{price}","1"]],"asks":[]}}]}}}}"#
        ));
        b.apply_diff(&diff).unwrap();
    }
    assert_eq!(book_of(&b).bids.len(), 3);
    assert_eq!(book_of(&b).best_bid(), price("100"));
}

#[test]
fn edgex_reset_clears_state() {
    let mut b = builder_with_snapshot();
    b.reset();
    assert!(!b.is_initialized());
    assert_eq!(b.last_version(), None);
    assert!(book_of(&b).best_bid().is_none());
}

#[test]
fn edgex_zero_size_levels_in_snapshot_are_ignored() {
    let mut b = BookBuilder::new(Symbol::Btc, 20);
    b.apply_snapshot(&depth_from(
        r#"{"type":"quote-event","content":{"dataType":"Snapshot","data":[{
            "bids":[["100","1"],["99","0"]],"asks":[["101","1"]]}]}}"#,
    ));
    let book = book_of(&b);
    assert_eq!(book.bids.len(), 1);
    book.validate().unwrap();
}

#[test]
fn ws_roundtrip_rebuilds_book_from_snapshot_and_diff() {
    let mut source = started();
    match take(&mut source, SNAPSHOT) {
        Reaction::Emit(first) => {
            assert_eq!(first.dex, Dex::EdgeX);
            assert_eq!(first.symbol, Symbol::Btc);
            assert_eq!(first.best_bid(), price("36000.5"));
            assert_eq!(first.best_ask(), price("36001.0"));
            assert_eq!(first.trace.exchange_ts_ms, Some(1700000000000));
            first.validate().unwrap();
        }
        other => panic!("{:?}", other),
    }
    match take(&mut source, DIFF_OK) {
        Reaction::Emit(second) => {
            assert_eq!(second.best_bid(), price("36000.75"));
            assert_eq!(second.bids.len(), 3);
            second.validate().unwrap();
        }
        other => panic!("{:?}", other),
    }
    source.book_sent();
    assert_eq!(source.books_emitted(), 1);
    assert_eq!(source.messages_received(), 2);
}

#[test]
fn resubscribes_when_sequence_gap_is_detected() {
    let mut source = started();
    assert!(matches!(take(&mut source, SNAPSHOT), Reaction::Emit(_)));
    match take(&mut source, DIFF_GAP) {
        Reaction::Resubscribe(channel) => assert_eq!(
            resubscribe_messages(&channel),
            (
                String::from(r#"{"type":"unsubscribe","channel":"depth.10000001.15"}"#),
                String::from(r#"{"type":"subscribe","channel":"depth.10000001.15"}"#),
            )
        ),
        other => panic!("{:?}", other),
    }
    match take(&mut source, SNAPSHOT) {
        Reaction::Emit(rebuilt) => {
            assert_eq!(rebuilt.best_bid(), price("36000.5"));
            rebuilt.validate().unwrap();
        }
        other => panic!("{:?}", other),
    }
    assert_eq!(source.sequence_gaps(), 1);
}

#[test]
fn pings_are_answered() {
    let mut source = started();
    assert!(matches!(
        take(&mut source, r#"{"type":"ping","time":"17"}"#),
        Reaction::Pong
    ));
    source.on_message(&Incoming::Unreadable, trace(), &Clock::start());
    assert_eq!(source.parse_errors(), 1);
}

#[test]
fn fails_fast_when_no_contract_id_is_available() {
    let source = EdgeXMarketData::new(EdgeXConfig {
        resolve_contract_ids: false,
        contract_ids: vec![],
        ..Default::default()
    });
    assert!(matches!(
        source.resolve_contract_ids(&[Symbol::Btc], &None),
        Err(MarketDataError::Config(_))
    ));
}

#[test]
fn configured_ids_come_before_those_of_the_venue() {
    let source = EdgeXMarketData::new(EdgeXConfig {
        resolve_contract_ids: true,
        ..test_config()
    });
    let mut fetched = BySymbol::new();
    fetched.set(Symbol::Btc, String::from("999"));
    fetched.set(Symbol::Eth, String::from("888"));
    let ids = source
        .resolve_contract_ids(&[Symbol::Btc, Symbol::Eth, Symbol::Sol], &Some(fetched))
        .unwrap();
    assert_eq!(ids.get(Symbol::Btc).map(|s| s.as_str()), Some("10000001"));
    assert_eq!(ids.get(Symbol::Eth).map(|s| s.as_str()), Some("888"));
    assert!(!ids.contains(Symbol::Sol));
}
