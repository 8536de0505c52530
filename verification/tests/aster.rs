//! Aster: messages, books and connections.

use perp_arb::aster::book_builder::{
    ApplyError, ApplyOutcome, AsterBookBuilder, BookPhase, MAX_BUFFERED_EVENTS,
};
use perp_arb::aster::market_data::{AsterMarketData, Incoming, Reaction};
use perp_arb::aster::message::{
    combined_stream_url, depth_event_at, DepthEvent, DepthSnapshot, EventAt, RawLevel,
};
use perp_arb::book::OrderBook;
use perp_arb::config::AsterConfig;
use perp_arb::decimal::Decimal;
use perp_arb::json::Json;
use perp_arb::ladder::Quote;
use perp_arb::num::Price;
use perp_arb::source::{check_symbols, MarketDataError, Next, SessionEnd};
use perp_arb::status::ConnectionStatus;
use perp_arb::symbol::{Dex, Symbol};
use perp_arb::time::{Clock, Duration, Instant};
use perp_arb::trace::MessageTrace;
use serde_json::Value;

const DEPTH_EVENT: &str = r#"{
    "stream": "btcusdt@depth@100ms",
    "data": {
        "e": "depthUpdate",
        "E": 1700000000123,
        "T": 1700000000120,
        "s": "BTCUSDT",
        "U": 100,
        "u": 120,
        "pu": 99,
        "b": [["36000.5", "1.5"], ["36000.0", "0"]],
        "a": [["36001.0", "2.0"]]
    }
}"#;

const SNAPSHOT_JSON: &str = r#"{
    "lastUpdateId": 120,
    "E": 1700000000100,
    "bids": [["36000.5","1.5"],["36000.0","2.0"],["35999.0","3.0"]],
    "asks": [["36001.0","2.0"],["36002.0","1.0"],["36003.0","4.0"]]
}"#;

const DIFF_OK: &str = r#"{"stream":"btcusdt@depth@100ms","data":{
    "e":"depthUpdate","E":1700000000200,"s":"BTCUSDT","U":118,"u":125,"pu":117,
    "b":[["36000.75","0.5"]],"a":[]}}"#;

const DIFF_GAP: &str = r#"{"stream":"btcusdt@depth@100ms","data":{
    "e":"depthUpdate","E":1700000000300,"s":"BTCUSDT","U":200,"u":210,"pu":199,
    "b":[["36000.9","0.1"]],"a":[]}}"#;

fn dec(text: &str) -> Decimal {
    Decimal::parse(text).unwrap()
}

fn price(text: &str) -> Option<Price> {
    Some(Price(dec(text)))
}

fn json(value: &Value) -> Json {
    match value {
        Value::Null => Json::Null,
        Value::Bool(b) => Json::Bool(*b),
        Value::Number(n) => Json::Number(n.to_string()),
        Value::String(s) => Json::Text(s.clone()),
        Value::Array(list) => Json::Array(list.iter().map(json).collect()),
        Value::Object(members) => {
            Json::Object(members.iter().map(|(k, v)| (k.clone(), json(v))).collect())
        }
    }
}

fn levels(value: &Value) -> Vec<RawLevel> {
    match value.as_array() {
        Some(list) => list
            .iter()
            .map(|l| {
                RawLevel::Tuple(
                    l.as_array()
                        .unwrap()
                        .iter()
                        .map(|v| dec(v.as_str().unwrap()))
                        .collect(),
                )
            })
            .collect(),
        None => vec![],
    }
}

fn side(value: &Value, short: &str, long: &str) -> Vec<RawLevel> {
    if value[short].is_array() {
        levels(&value[short])
    } else {
        levels(&value[long])
    }
}

fn depth_event(value: &Value) -> DepthEvent {
    DepthEvent {
        event_type: String::from(value["e"].as_str().unwrap()),
        event_time_ms: value["E"].as_u64(),
        transaction_time_ms: value["T"].as_u64(),
        symbol_raw: String::from(value["s"].as_str().unwrap()),
        first_update_id: value["U"].as_u64().unwrap(),
        final_update_id: value["u"].as_u64().unwrap(),
        prev_final_update_id: value["pu"].as_u64(),
        bids: side(value, "b", "bids"),
        asks: side(value, "a", "asks"),
    }
}

fn parse(text: &str) -> Option<DepthEvent> {
    let value: Value = serde_json::from_str(text).unwrap();
    depth_event_at(&json(&value)).map(|at| match at {
        EventAt::Root => depth_event(&value),
        EventAt::Data => depth_event(&value["data"]),
    })
}

fn depth_snapshot(text: &str) -> DepthSnapshot {
    let value: Value = serde_json::from_str(text).unwrap();
    DepthSnapshot {
        last_update_id: value["lastUpdateId"].as_u64().unwrap(),
        event_time_ms: value["E"].as_u64(),
        transaction_time_ms: value["T"].as_u64(),
        bids: side(&value, "b", "bids"),
        asks: side(&value, "a", "asks"),
    }
}

fn snapshot() -> DepthSnapshot {
    depth_snapshot(SNAPSHOT_JSON)
}

fn event(u_first: u64, u_last: u64, pu: Option<u64>, bids: &str, asks: &str) -> DepthEvent {
    let pu_field = match pu {
        Some(v) => format!(r#""pu":{v},"#),
        None => String::new(),
    };
    let raw = format!(
        r#"{{"e":"depthUpdate","E":1700000000200,"s":"BTCUSDT",
            "U":{u_first},"u":{u_last},{pu_field}"b":[{bids}],"a":[{asks}]}}"#
    );
    parse(&raw).unwrap()
}

fn builder() -> AsterBookBuilder {
    AsterBookBuilder::new(Symbol::Btc, 100)
}

fn trace() -> MessageTrace {
    MessageTrace::on_receive(&Clock::start())
}

fn book(b: &AsterBookBuilder) -> OrderBook {
    b.to_order_book(20, trace(), &Clock::start())
}

fn test_config() -> AsterConfig {
    AsterConfig {
        snapshot_limit: 100,
        resync_backoff_ms: 50,
        reconnect_before_hours: 0,
        reconnect_max_attempts: 1,
        reconnect_base_delay_ms: 10,
        reconnect_max_delay_ms: 20,
        ..Default::default()
    }
}

fn at(millis: u64) -> Instant {
    Instant { nanos: 1_000 }.saturating_add(Duration::from_millis(millis))
}

#[test]
fn parses_combined_stream_event() {
    let ev = parse(DEPTH_EVENT).unwrap();
    assert_eq!(ev.symbol(), Some(Symbol::Btc));
    assert_eq!(ev.event_time_ms, Some(1700000000123));
    assert_eq!(ev.first_update_id, 100);
    assert_eq!(ev.final_update_id, 120);
    assert_eq!(ev.prev_final_update_id, Some(99));
    assert_eq!(ev.bids[0].parts(), Some((dec("36000.5"), dec("1.5"))));
    assert_eq!(ev.bids[1].parts(), Some((dec("36000.0"), dec("0"))));
    assert_eq!(ev.asks.len(), 1);
}

#[test]
fn parses_bare_event_and_bids_asks_keys() {
    let raw = r#"{"e":"depthUpdate","E":1,"s":"ETHUSDT","U":1,"u":2,"pu":0,
        "bids":[["2000.0","1"]],"asks":[["2001.0","1"]]}"#;
    let ev = parse(raw).unwrap();
    assert_eq!(ev.symbol(), Some(Symbol::Eth));
    assert_eq!(ev.bids[0].parts(), Some((dec("2000.0"), dec("1"))));
}

#[test]
fn ignores_non_depth_messages() {
    assert!(parse(r#"{"result":null,"id":1}"#).is_none());
    assert!(parse(r#"{"e":"aggTrade","s":"BTCUSDT"}"#).is_none());
}

#[test]
fn parses_snapshot() {
    let snap = depth_snapshot(
        r#"{
        "lastUpdateId": 120,
        "E": 1700000000100,
        "T": 1700000000099,
        "bids": [["36000.5", "1.5"], ["36000.0", "2.0"]],
        "asks": [["36001.0", "2.0"], ["36002.0", "1.0"]]
    }"#,
    );
    assert_eq!(snap.last_update_id, 120);
    assert_eq!(snap.bids.len(), 2);
    assert_eq!(snap.asks[0].parts(), Some((dec("36001.0"), dec("2.0"))));
}

#[test]
fn message_unknown_symbol_is_none() {
    let raw = r#"{"e":"depthUpdate","E":1,"s":"DOGEUSDT","U":1,"u":2,"b":[],"a":[]}"#;
    let ev = parse(raw).unwrap();
    assert_eq!(ev.symbol(), None);
}

#[test]
fn builds_combined_stream_url() {
    let url = combined_stream_url(
        "wss://fstream.asterdex.com",
        &vec![
            String::from("btcusdt@depth@100ms"),
            String::from("ethusdt@depth@100ms"),
        ],
    );
    assert_eq!(
        url,
        "wss://fstream.asterdex.com/stream?streams=btcusdt@depth@100ms/ethusdt@depth@100ms"
    );
}

#[test]
fn slashes_at_the_end_of_the_address_are_dropped() {
    assert_eq!(
        combined_stream_url("wss://host//", &vec![String::from("a")]),
        "wss://host/stream?streams=a"
    );
}

#[test]
fn short_levels_are_passed_over() {
    assert_eq!(RawLevel::Tuple(vec![dec("1")]).parts(), None);
    assert_eq!(
        RawLevel::Object {
            price: dec("1"),
            quantity: dec("2")
        }
        .parts(),
        Some((dec("1"), dec("2")))
    );
}

#[test]
fn snapshot_builds_sorted_book() {
    let mut b = builder();
    b.apply_snapshot(&snapshot()).unwrap();

    let book = book(&b);
    assert_eq!(book.dex, Dex::Aster);
    assert_eq!(book.symbol, Symbol::Btc);
    assert_eq!(book.best_bid(), price("36000.5"));
    assert_eq!(book.best_ask(), price("36001.0"));
    assert_eq!(book.trace.exchange_ts_ms, Some(1700000000100));
    assert!(b.has_book());
    assert_eq!(
        b.phase(),
        BookPhase::AwaitingFirstEvent {
            last_update_id: 120
        }
    );
    book.validate().unwrap();
}

#[test]
fn first_event_must_straddle_last_update_id() {
    let mut b = builder();
    b.apply_snapshot(&snapshot()).unwrap();

    assert_eq!(
        b.apply_event(&event(100, 119, Some(99), "", "")).unwrap(),
        ApplyOutcome::Discarded
    );
    assert_eq!(
        b.apply_event(&event(118, 125, Some(117), r#"["36000.75","0.5"]"#, ""))
            .unwrap(),
        ApplyOutcome::Applied
    );
    assert_eq!(
        b.phase(),
        BookPhase::Streaming {
            last_update_id: 125
        }
    );
    assert_eq!(book(&b).best_bid(), price("36000.75"));
}

#[test]
fn detects_snapshot_too_old() {
    let mut b = builder();
    b.apply_snapshot(&snapshot()).unwrap();
    assert_eq!(
        b.apply_event(&event(200, 210, Some(199), "", "")),
        Err(ApplyError::SnapshotTooOld {
            last_update_id: 120,
            first_update_id: 200,
        })
    );
}

#[test]
fn validates_pu_continuity() {
    let mut b = builder();
    b.apply_snapshot(&snapshot()).unwrap();
    b.apply_event(&event(118, 125, Some(117), "", "")).unwrap();

    assert_eq!(
        b.apply_event(&event(126, 130, Some(125), r#"["36000.6","1"]"#, ""))
            .unwrap(),
        ApplyOutcome::Applied
    );
    assert_eq!(
        b.apply_event(&event(140, 150, Some(139), "", "")),
        Err(ApplyError::SequenceGap {
            expected: 130,
            got: 139,
        })
    );
    assert_eq!(book(&b).best_bid(), price("36000.6"));
}

#[test]
fn zero_quantity_deletes_level() {
    let mut b = builder();
    b.apply_snapshot(&snapshot()).unwrap();
    b.apply_event(&event(118, 125, Some(117), r#"["36000.5","0"]"#, ""))
        .unwrap();

    let book = book(&b);
    assert_eq!(book.best_bid(), price("36000.0"));
    assert!(book.bids.iter().all(|l| l.price != Price(dec("36000.5"))));
}

#[test]
fn deleting_unknown_level_is_normal() {
    let mut b = builder();
    b.apply_snapshot(&snapshot()).unwrap();
    let outcome = b
        .apply_event(&event(
            118,
            125,
            Some(117),
            r#"["1.0","0"]"#,
            r#"["999999.0","0"]"#,
        ))
        .unwrap();
    assert_eq!(outcome, ApplyOutcome::Applied);
    let book = book(&b);
    assert_eq!(book.bids.len(), 3);
    assert_eq!(book.asks.len(), 3);
    book.validate().unwrap();
}

#[test]
fn events_are_buffered_until_snapshot_arrives() {
    let mut b = builder();
    assert_eq!(
        b.apply_event(&event(100, 110, Some(99), r#"["35000.0","1"]"#, ""))
            .unwrap(),
        ApplyOutcome::Buffered
    );
    assert_eq!(
        b.apply_event(&event(111, 125, Some(110), r#"["36000.75","0.5"]"#, ""))
            .unwrap(),
        ApplyOutcome::Buffered
    );
    assert_eq!(b.buffered_len(), 2);
    assert!(!b.has_book());

    b.apply_snapshot(&snapshot()).unwrap();
    assert_eq!(b.buffered_len(), 0);
    assert_eq!(
        b.phase(),
        BookPhase::Streaming {
            last_update_id: 125
        }
    );

    let book = book(&b);
    assert_eq!(book.best_bid(), price("36000.75"));
    assert!(book.bids.iter().all(|l| l.price != Price(dec("35000.0"))));
}

#[test]
fn buffered_gap_surfaces_on_snapshot_apply() {
    let mut b = builder();
    b.apply_event(&event(118, 125, Some(117), "", "")).unwrap();
    b.apply_event(&event(140, 150, Some(139), "", "")).unwrap();

    assert_eq!(
        b.apply_snapshot(&snapshot()),
        Err(ApplyError::SequenceGap {
            expected: 125,
            got: 139,
        })
    );
}

#[test]
fn buffer_is_bounded() {
    let mut b = builder();
    for i in 0..(MAX_BUFFERED_EVENTS + 100) as u64 {
        b.apply_event(&event(i, i + 1, Some(i), "", "")).unwrap();
    }
    assert_eq!(b.buffered_len(), MAX_BUFFERED_EVENTS);
}

#[test]
fn duplicate_events_are_discarded() {
    let mut b = builder();
    b.apply_snapshot(&snapshot()).unwrap();
    b.apply_event(&event(118, 125, Some(117), "", "")).unwrap();
    assert_eq!(
        b.apply_event(&event(118, 125, Some(117), "", "")).unwrap(),
        ApplyOutcome::Discarded
    );
}

#[test]
fn tolerates_missing_pu() {
    let mut b = builder();
    b.apply_snapshot(&snapshot()).unwrap();
    b.apply_event(&event(118, 125, None, "", "")).unwrap();
    assert_eq!(
        b.apply_event(&event(126, 130, None, r#"["36000.6","1"]"#, ""))
            .unwrap(),
        ApplyOutcome::Applied
    );
}

#[test]
fn reset_returns_to_awaiting_snapshot() {
    let mut b = builder();
    b.apply_snapshot(&snapshot()).unwrap();
    b.reset();
    assert_eq!(b.phase(), BookPhase::AwaitingSnapshot);
    assert!(!b.has_book());
    assert!(book(&b).best_bid().is_none());
}

#[test]
fn trims_to_max_levels() {
    let mut b = AsterBookBuilder::new(Symbol::Btc, 2);
    b.apply_snapshot(&snapshot()).unwrap();
    let book = book(&b);
    assert_eq!(book.bids.len(), 2);
    assert_eq!(book.asks.len(), 2);
    assert_eq!(book.best_bid(), price("36000.5"));
    assert_eq!(book.asks[1].price, Price(dec("36002.0")));
}

#[test]
fn sequential_diffs_keep_book_consistent() {
    let mut b = builder();
    b.apply_snapshot(&snapshot()).unwrap();

    let steps = [
        (118u64, 125u64, 117u64, r#"["36000.6","1"]"#),
        (126, 130, 125, r#"["36000.7","2"]"#),
        (131, 140, 130, r#"["36000.6","0"]"#),
    ];
    for (u_first, u_last, pu, bids) in steps {
        assert_eq!(
            b.apply_event(&event(u_first, u_last, Some(pu), bids, ""))
                .unwrap(),
            ApplyOutcome::Applied
        );
    }

    let book = book(&b);
    assert_eq!(book.best_bid(), price("36000.7"));
    assert!(book.bids.iter().all(|l| l.price != Price(dec("36000.6"))));
    assert_eq!(
        b.phase(),
        BookPhase::Streaming {
            last_update_id: 140
        }
    );
    book.validate().unwrap();
}

#[test]
fn refused_changes_have_messages() {
    let gap = ApplyError::SequenceGap {
        expected: 130,
        got: 139,
    };
    let message = gap.message();
    assert!(message.contains("130") && message.contains("139"), "{}", message);
}

#[test]
fn rebuilds_book_from_snapshot_and_diff() {
    let mut source = AsterMarketData::new(test_config());
    let mut backoff = source.backoff();
    let first = source.begin_session(&[Symbol::Btc], 10, &mut backoff, at(0));
    assert!(matches!(
        first[0],
        Reaction::Fetch {
            symbol: Symbol::Btc,
            ..
        }
    ));
    assert_eq!(source.connection_status(), ConnectionStatus::Connected);

    // A change that comes before the snapshot is kept.
    let diff = Incoming::Event(parse(DIFF_OK).unwrap());
    assert!(matches!(
        source.on_message_at(&diff, trace(), at(1)),
        Reaction::Nothing
    ));
    match source.on_snapshot_at(Symbol::Btc, &Some(snapshot()), trace(), at(2)) {
        Reaction::Emit(book) => {
            assert_eq!(book.dex, Dex::Aster);
            assert_eq!(book.best_bid(), price("36000.75"));
            assert_eq!(book.best_ask(), price("36001.0"));
            book.validate().unwrap();
        }
        other => panic!("{:?}", other),
    }
    source.book_sent();
    assert_eq!(source.metrics().books_emitted, 1);
    assert_eq!(source.metrics().messages_received, 1);
}

#[test]
fn resyncs_via_rest_when_sequence_gap_is_detected() {
    let mut source = AsterMarketData::new(test_config());
    let mut backoff = source.backoff();
    source.begin_session(&[Symbol::Btc], 10, &mut backoff, at(0));
    source.on_snapshot_at(Symbol::Btc, &Some(snapshot()), trace(), at(1));
    let diff = Incoming::Event(parse(DIFF_OK).unwrap());
    assert!(matches!(
        source.on_message_at(&diff, trace(), at(2)),
        Reaction::Emit(_)
    ));
    source.book_sent();

    let gap = Incoming::Event(parse(DIFF_GAP).unwrap());
    match source.on_message_at(&gap, trace(), at(3)) {
        Reaction::Fetch { symbol, delay } => {
            assert_eq!(symbol, Symbol::Btc);
            // The first snapshot was asked for at the start, the next one may be 50 ms later.
            assert_eq!(delay, Duration::from_millis(47));
        }
        other => panic!("{:?}", other),
    }
    // A snapshot is on its way, so that none is asked for again.
    assert!(matches!(
        source.on_message_at(&gap, trace(), at(4)),
        Reaction::Nothing
    ));
    let metrics = source.metrics();
    assert!(metrics.sequence_gaps > 0);
    assert!(metrics.books_emitted > 0);
}

#[test]
fn failed_snapshots_are_asked_for_again() {
    let mut source = AsterMarketData::new(test_config());
    let mut backoff = source.backoff();
    source.begin_session(&[Symbol::Btc], 10, &mut backoff, at(0));
    assert!(matches!(
        source.on_snapshot_at(Symbol::Btc, &None, trace(), at(1)),
        Reaction::Fetch {
            symbol: Symbol::Btc,
            ..
        }
    ));
}

#[test]
fn unreadable_messages_are_counted() {
    let mut source = AsterMarketData::new(test_config());
    let mut backoff = source.backoff();
    source.begin_session(&[Symbol::Btc], 10, &mut backoff, at(0));
    let clock = Clock::start();
    source.on_message(&Incoming::Unreadable, trace(), &clock);
    source.on_message(&Incoming::Other, trace(), &clock);
    assert_eq!(source.metrics().parse_errors, 1);
    assert_eq!(source.metrics().messages_received, 2);
}

#[test]
fn snapshots_of_instruments_are_kept_apart() {
    let mut source = AsterMarketData::new(test_config());
    let mut backoff = source.backoff();
    let fetches = source.begin_session(&[Symbol::Btc, Symbol::Eth], 10, &mut backoff, at(0));
    let delays: Vec<Duration> = fetches
        .iter()
        .map(|f| match f {
            Reaction::Fetch { delay, .. } => *delay,
            other => panic!("{:?}", other),
        })
        .collect();
    assert_eq!(
        delays,
        vec![Duration::from_millis(0), Duration::from_millis(50)]
    );
    assert_eq!(
        source.stream_url(&[Symbol::Btc]),
        "wss://fstream.asterdex.com/stream?streams=btcusdt@depth@100ms"
    );
    assert_eq!(
        source.snapshot_url(Symbol::Btc),
        "https://fapi.asterdex.com/fapi/v1/depth?symbol=BTCUSDT&limit=100"
    );
}

#[test]
fn ws_roundtrip_reports_reconnect_exhausted_when_server_is_unreachable() {
    let mut source = AsterMarketData::new(test_config());
    let mut backoff = source.backoff();
    assert!(matches!(
        source.end_session(&mut backoff, SessionEnd::Failed),
        Next::Wait(_)
    ));
    assert!(matches!(
        source.end_session(&mut backoff, SessionEnd::Failed),
        Next::Stop(MarketDataError::ReconnectExhausted { .. })
    ));
    assert_eq!(source.connection_status(), ConnectionStatus::Disconnected);
}

#[test]
fn rejects_empty_symbol_list() {
    assert!(matches!(
        check_symbols(&[]),
        Err(MarketDataError::Config(_))
    ));
}
