//! dYdX: messages, books and connections.

use perp_arb::book::OrderBook;
use perp_arb::config::DydxConfig;
use perp_arb::decimal::Decimal;
use perp_arb::dydx::book_builder::{ApplyError, DydxBookBuilder};
use perp_arb::dydx::market_data::{DydxMarketData, Incoming, Reaction};
use perp_arb::dydx::message::{
    names_a_side,
    subscribe_message, unsubscribe_message, Contents, DydxEnvelope, DydxMessageKind, Num,
    OrderBookContents, PriceSize,
};
use perp_arb::json::Json;
use perp_arb::ladder::Quote;
use perp_arb::num::{Price, Quantity};
use perp_arb::source::{MarketDataError, Next, SessionEnd};
use perp_arb::status::ConnectionStatus;
use perp_arb::symbol::{Dex, Symbol};
use perp_arb::time::{Clock, Duration};
use perp_arb::trace::MessageTrace;
use serde_json::Value;

const CONNECTED: &str = r#"{"type":"connected","connection_id":"conn-1","message_id":0}"#;

const SNAPSHOT: &str = r#"{"type":"subscribed","connection_id":"conn-1","message_id":1,
    "channel":"v4_orderbook","id":"BTC-USD","contents":{
      "bids":[{"price":"36000.5","size":"1.5"},{"price":"36000.0","size":"3.0"}],
      "asks":[{"price":"36001.0","size":"2.0"},{"price":"36002.0","size":"1.0"}]}}"#;

const UPDATE_DELETE: &str = r#"{"type":"channel_data","connection_id":"conn-1","message_id":2,
    "channel":"v4_orderbook","id":"BTC-USD",
    "contents":{"bids":[["36000.75","0.5"],["36000.0","0"]],"asks":[]}}"#;

const UPDATE_CROSSED: &str = r#"{"type":"channel_data","connection_id":"conn-1","message_id":3,
    "channel":"v4_orderbook","id":"BTC-USD",
    "contents":{"bids":[["36001.5","1.0"]],"asks":[]}}"#;

const UPDATE_GAP: &str = r#"{"type":"channel_data","connection_id":"conn-1","message_id":99,
    "channel":"v4_orderbook","id":"BTC-USD",
    "contents":{"bids":[["36000.9","1.0"]],"asks":[]}}"#;

fn dec(text: &str) -> Decimal {
    Decimal::parse(text).unwrap()
}

fn price(text: &str) -> Option<Price> {
    Some(Price(dec(text)))
}

fn text(value: &Value) -> Option<String> {
    value.as_str().map(String::from)
}

fn number(value: &Value) -> Option<Num> {
    match value {
        Value::Number(n) => n.as_u64().map(Num::Int),
        Value::String(s) => Some(Num::Str(s.clone())),
        _ => None,
    }
}

fn level(value: &Value) -> PriceSize {
    match value {
        Value::Array(list) => {
            PriceSize::Tuple(list.iter().map(|v| dec(v.as_str().unwrap())).collect())
        }
        _ => PriceSize::Object {
            price: dec(value["price"].as_str().unwrap()),
            size: dec(value["size"].as_str().unwrap()),
        },
    }
}

fn side(value: &Value) -> Vec<PriceSize> {
    match value.as_array() {
        Some(list) => list.iter().map(level).collect(),
        None => vec![],
    }
}

fn levels(value: &Value) -> Option<OrderBookContents> {
    if value.is_object() {
        Some(OrderBookContents {
            bids: side(&value["bids"]),
            asks: side(&value["asks"]),
        })
    } else {
        None
    }
}

fn parse(raw: &str) -> DydxEnvelope {
    let v: Value = serde_json::from_str(raw).unwrap();
    let contents = &v["contents"];
    DydxEnvelope {
        kind: text(&v["type"]).unwrap_or_default(),
        channel: text(&v["channel"]),
        id: text(&v["id"]),
        contents: if contents.is_null() {
            None
        } else {
            Some(Contents {
                direct: levels(contents),
                names_a_side: contents.get("bids").is_some() || contents.get("asks").is_some(),
                nested: levels(&contents["orderbook"]),
            })
        },
        message_id: number(&v["message_id"]).or(number(&v["message-id"])),
        connection_id: text(&v["connection_id"]),
        message: text(&v["message"]),
    }
}

fn builder_with_snapshot() -> DydxBookBuilder {
    let mut b = DydxBookBuilder::new(Symbol::Btc, 100);
    let env = parse(SNAPSHOT);
    b.apply_snapshot(env.order_book().unwrap(), env.message_id());
    b
}

fn apply(b: &mut DydxBookBuilder, raw: &str) -> Result<(), ApplyError> {
    let env = parse(raw);
    b.apply_update(env.order_book().unwrap(), env.message_id())
}

fn trace() -> MessageTrace {
    MessageTrace::on_receive(&Clock::start())
}

fn book(b: &DydxBookBuilder) -> OrderBook {
    b.to_order_book(20, trace(), &Clock::start())
}

fn test_config() -> DydxConfig {
    DydxConfig {
        use_testnet: false,
        connected_timeout_secs: 5,
        reconnect_max_attempts: 1,
        reconnect_base_delay_ms: 10,
        reconnect_max_delay_ms: 20,
        ..Default::default()
    }
}

fn take(source: &mut DydxMarketData, raw: &str) -> Reaction {
    source.on_message(&Incoming::Message(parse(raw)), trace(), &Clock::start())
}

fn started() -> DydxMarketData {
    let mut source = DydxMarketData::new(test_config());
    let mut backoff = source.backoff();
    source.begin_session(&[Symbol::Btc], 10, &mut backoff);
    source
}

#[test]
fn classifies_message_kinds() {
    assert_eq!(parse(CONNECTED).message_kind(), DydxMessageKind::Connected);
    assert_eq!(parse(SNAPSHOT).message_kind(), DydxMessageKind::Subscribed);
    assert_eq!(
        parse(UPDATE_DELETE).message_kind(),
        DydxMessageKind::ChannelData
    );
    assert_eq!(
        parse(r#"{"type":"unsubscribed","channel":"v4_orderbook","id":"BTC-USD"}"#).message_kind(),
        DydxMessageKind::Unsubscribed
    );
    assert_eq!(
        parse(r#"{"type":"error","message":"Invalid channel"}"#).message_kind(),
        DydxMessageKind::Error
    );
    assert_eq!(
        parse(r#"{"type":"whatever"}"#).message_kind(),
        DydxMessageKind::Unknown
    );
}

#[test]
fn parses_snapshot_contents() {
    let env = parse(SNAPSHOT);
    assert!(env.is_orderbook());
    assert_eq!(env.id.as_deref(), Some("BTC-USD"));
    assert_eq!(env.message_id(), Some(1));

    let ob = env.order_book().unwrap();
    assert_eq!(ob.bids[0].parts(), Some((dec("36000.5"), dec("1.5"))));
    assert_eq!(ob.asks.len(), 2);
}

#[test]
fn parses_tuple_form_updates() {
    let env = parse(UPDATE_DELETE);
    let ob = env.order_book().unwrap();
    assert_eq!(ob.bids[0].parts(), Some((dec("36000.75"), dec("0.5"))));
    assert_eq!(ob.bids[1].parts(), Some((dec("36000.0"), Decimal::zero())));
    assert!(ob.asks.is_empty());
}

#[test]
fn empty_side_is_valid_content() {
    let env = parse(
        r#"{"type":"channel_data","channel":"v4_orderbook","id":"ETH-USD",
            "contents":{"asks":[["2001.0","1.0"]]}}"#,
    );
    let ob = env.order_book().unwrap();
    assert!(ob.bids.is_empty());
    assert_eq!(ob.asks.len(), 1);
}

#[test]
fn unwraps_nested_orderbook_form() {
    let env = parse(
        r#"{"type":"subscribed","channel":"v4_orderbook","id":"SOL-USD",
            "contents":{"orderbook":{"bids":[["100.0","1.0"]],"asks":[["101.0","2.0"]]}}}"#,
    );
    let ob = env.order_book().unwrap();
    assert_eq!(ob.bids[0].parts(), Some((dec("100.0"), dec("1.0"))));
}

#[test]
fn message_id_reads_both_spellings() {
    assert_eq!(parse(r#"{"message_id":42}"#).message_id(), Some(42));
    assert_eq!(parse(r#"{"message-id":"43"}"#).message_id(), Some(43));
    assert_eq!(parse(r#"{"type":"connected"}"#).message_id(), None);
}

#[test]
fn builds_subscription_messages() {
    assert_eq!(
        subscribe_message("BTC-USD"),
        r#"{"type":"subscribe","channel":"v4_orderbook","id":"BTC-USD"}"#
    );
    assert_eq!(
        unsubscribe_message("BTC-USD"),
        r#"{"type":"unsubscribe","channel":"v4_orderbook","id":"BTC-USD"}"#
    );
}

#[test]
fn non_orderbook_channels_are_recognized() {
    let env = parse(r#"{"type":"channel_data","channel":"v4_trades","id":"BTC-USD"}"#);
    assert!(!env.is_orderbook());
}

#[test]
fn numbers_in_quotes_are_read() {
    assert_eq!(Num::Str(String::from(" 43 ")).as_u64(), Some(43));
    assert_eq!(Num::Str(String::from("x")).as_u64(), None);
    assert_eq!(Num::Int(7).as_u64(), Some(7));
}

#[test]
fn book_builder_snapshot_builds_sorted_book() {
    let b = builder_with_snapshot();
    let book = book(&b);
    assert_eq!(book.dex, Dex::Dydx);
    assert_eq!(book.symbol, Symbol::Btc);
    assert_eq!(book.best_bid(), price("36000.5"));
    assert_eq!(book.best_ask(), price("36001.0"));
    assert_eq!(b.last_message_id(), Some(1));
    book.validate().unwrap();
}

#[test]
fn snapshot_resets_previous_state() {
    let mut b = builder_with_snapshot();
    let env = parse(
        r#"{"type":"subscribed","channel":"v4_orderbook","id":"BTC-USD","message_id":9,
            "contents":{"bids":[["100.0","1.0"]],"asks":[["101.0","1.0"]]}}"#,
    );
    b.apply_snapshot(env.order_book().unwrap(), env.message_id());

    let book = book(&b);
    assert_eq!(book.bids.len(), 1);
    assert_eq!(book.asks.len(), 1);
    assert_eq!(book.best_bid(), price("100.0"));
    assert_eq!(b.last_message_id(), Some(9));
}

#[test]
fn zero_size_deletes_the_level() {
    let mut b = builder_with_snapshot();
    apply(
        &mut b,
        r#"{"type":"channel_data","channel":"v4_orderbook","id":"BTC-USD","message_id":2,
            "contents":{"bids":[["36000.0","0"]],"asks":[["36001.0","0"]]}}"#,
    )
    .unwrap();

    let book = book(&b);
    assert_eq!(book.bids.len(), 1);
    assert!(book.bids.iter().all(|l| l.price != Price(dec("36000.0"))));
    assert_eq!(book.asks.len(), 1);
    assert_eq!(book.best_ask(), price("36002.0"));
}

#[test]
fn update_inserts_and_replaces_levels() {
    let mut b = builder_with_snapshot();
    apply(
        &mut b,
        r#"{"type":"channel_data","channel":"v4_orderbook","id":"BTC-USD","message_id":2,
            "contents":{"bids":[["36000.75","0.5"]],"asks":[["36001.0","5"]]}}"#,
    )
    .unwrap();

    let book = book(&b);
    assert_eq!(book.best_bid(), price("36000.75"));
    assert_eq!(book.bids.len(), 3);
    assert_eq!(book.asks[0].quantity, Quantity(dec("5")));
    assert_eq!(b.last_message_id(), Some(2));
}

#[test]
fn book_builder_deleting_unknown_level_is_harmless() {
    let mut b = builder_with_snapshot();
    apply(
        &mut b,
        r#"{"type":"channel_data","channel":"v4_orderbook","id":"BTC-USD","message_id":2,
            "contents":{"bids":[["1.0","0"]],"asks":[["999999.0","0"]]}}"#,
    )
    .unwrap();
    let book = book(&b);
    assert_eq!(book.bids.len(), 2);
    assert_eq!(book.asks.len(), 2);
}

#[test]
fn detects_message_id_gap() {
    let mut b = builder_with_snapshot();
    assert_eq!(
        apply(
            &mut b,
            r#"{"type":"channel_data","channel":"v4_orderbook","id":"BTC-USD","message_id":5,
                "contents":{"bids":[["36000.9","1"]],"asks":[]}}"#,
        ),
        Err(ApplyError::MessageIdGap {
            expected: 2,
            got: 5
        })
    );
    assert_eq!(book(&b).best_bid(), price("36000.5"));
}

#[test]
fn book_builder_sequential_updates_keep_book_consistent() {
    let mut b = builder_with_snapshot();
    for (id, price, size) in [
        (2u64, "36000.6", "1"),
        (3, "36000.7", "2"),
        (4, "36000.6", "0"),
    ] {
        apply(
            &mut b,
            &format!(
                r#"{{"type":"channel_data","channel":"v4_orderbook","id":"BTC-USD",
                    "message_id":{id},"contents":{{"bids":[["{price}","{size}"]],"asks":[]}}}}"#
            ),
        )
        .unwrap();
    }
    let book = book(&b);
    assert_eq!(book.best_bid(), price("36000.7"));
    assert!(book.bids.iter().all(|l| l.price != Price(dec("36000.6"))));
    assert_eq!(b.last_message_id(), Some(4));
}

#[test]
fn book_builder_rejects_update_before_snapshot() {
    let mut b = DydxBookBuilder::new(Symbol::Eth, 100);
    let refused = apply(
        &mut b,
        r#"{"type":"channel_data","channel":"v4_orderbook","id":"ETH-USD","message_id":1,
            "contents":{"bids":[["2000","1"]],"asks":[]}}"#,
    );
    assert_eq!(refused, Err(ApplyError::NotInitialized));
    assert_eq!(
        refused.unwrap_err().message(),
        "スナップショット未受信のまま差分が届いた"
    );
}

#[test]
fn crossed_book_is_kept_not_discarded() {
    let mut b = builder_with_snapshot();
    apply(
        &mut b,
        r#"{"type":"channel_data","channel":"v4_orderbook","id":"BTC-USD","message_id":2,
            "contents":{"bids":[["36001.5","1.0"]],"asks":[]}}"#,
    )
    .unwrap();

    let book = book(&b);
    assert!(book.is_crossed());
    book.validate_allowing_crossed().unwrap();
    assert!(book.validate().is_err());
}

#[test]
fn book_builder_zero_size_levels_in_snapshot_are_ignored() {
    let mut b = DydxBookBuilder::new(Symbol::Sol, 100);
    let env = parse(
        r#"{"type":"subscribed","channel":"v4_orderbook","id":"SOL-USD","message_id":1,
            "contents":{"bids":[["100","1"],["99","0"]],"asks":[["101","1"]]}}"#,
    );
    b.apply_snapshot(env.order_book().unwrap(), env.message_id());
    assert_eq!(book(&b).bids.len(), 1);
}

#[test]
fn book_builder_trims_to_max_levels() {
    let mut b = DydxBookBuilder::new(Symbol::Btc, 1);
    let env = parse(SNAPSHOT);
    b.apply_snapshot(env.order_book().unwrap(), env.message_id());
    let book = book(&b);
    assert_eq!(book.bids.len(), 1);
    assert_eq!(book.asks.len(), 1);
    assert_eq!(book.best_bid(), price("36000.5"));
}

#[test]
fn book_builder_reset_clears_state() {
    let mut b = builder_with_snapshot();
    b.reset();
    assert!(!b.is_initialized());
    assert_eq!(b.last_message_id(), None);
    assert!(book(&b).best_bid().is_none());
}

#[test]
fn waits_for_connected_then_rebuilds_book() {
    let mut source = started();
    assert!(source.awaits_connected());
    assert_eq!(source.connected_timeout(), Duration::from_secs(5));

    match take(&mut source, CONNECTED) {
        Reaction::Subscribe(markets) => {
            assert_eq!(markets, vec![String::from("BTC-USD")]);
            assert_eq!(
                subscribe_message(&markets[0]),
                r#"{"type":"subscribe","channel":"v4_orderbook","id":"BTC-USD"}"#
            );
        }
        other => panic!("{:?}", other),
    }
    assert!(!source.awaits_connected());

    match take(&mut source, SNAPSHOT) {
        Reaction::Emit(snapshot) => {
            assert_eq!(snapshot.dex, Dex::Dydx);
            assert_eq!(snapshot.symbol, Symbol::Btc);
            assert_eq!(snapshot.best_bid(), price("36000.5"));
            assert_eq!(snapshot.best_ask(), price("36001.0"));
            assert!(!snapshot.is_crossed());
            snapshot.validate().unwrap();
        }
        other => panic!("{:?}", other),
    }
    match take(&mut source, UPDATE_DELETE) {
        Reaction::Emit(updated) => {
            assert_eq!(updated.best_bid(), price("36000.75"));
            assert_eq!(updated.bids.len(), 2);
            assert!(updated.bids.iter().all(|l| l.price.0 != dec("36000.0")));
        }
        other => panic!("{:?}", other),
    }
}

#[test]
fn crossed_books_are_delivered_and_counted() {
    let mut source = started();
    take(&mut source, CONNECTED);
    take(&mut source, SNAPSHOT);
    take(&mut source, UPDATE_DELETE);
    match take(&mut source, UPDATE_CROSSED) {
        Reaction::Emit(crossed) => {
            assert!(crossed.is_crossed());
            assert_eq!(crossed.best_bid(), price("36001.5"));
            assert_eq!(crossed.best_ask(), price("36001.0"));
            assert!(crossed.validate_allowing_crossed().is_ok());
        }
        other => panic!("{:?}", other),
    }
    assert_eq!(source.metrics().crossed_books, 1);
}

#[test]
fn resubscribes_when_message_id_gap_is_detected() {
    let mut source = started();
    take(&mut source, CONNECTED);
    assert!(matches!(take(&mut source, SNAPSHOT), Reaction::Emit(_)));
    match take(&mut source, UPDATE_GAP) {
        Reaction::Resubscribe(market) => {
            assert_eq!(
                unsubscribe_message(&market),
                r#"{"type":"unsubscribe","channel":"v4_orderbook","id":"BTC-USD"}"#
            );
            assert_eq!(
                subscribe_message(&market),
                r#"{"type":"subscribe","channel":"v4_orderbook","id":"BTC-USD"}"#
            );
        }
        other => panic!("{:?}", other),
    }
    match take(&mut source, SNAPSHOT) {
        Reaction::Emit(rebuilt) => assert_eq!(rebuilt.best_bid(), price("36000.5")),
        other => panic!("{:?}", other),
    }
    assert!(source.metrics().sequence_gaps > 0);
}

#[test]
fn reconnects_when_connected_never_arrives() {
    let mut source = DydxMarketData::new(DydxConfig {
        connected_timeout_secs: 1,
        ..test_config()
    });
    let mut backoff = source.backoff();
    // Each connection stands, so that the attempts start over.
    for _ in 0..2 {
        source.begin_session(&[Symbol::Btc], 10, &mut backoff);
        assert!(source.awaits_connected());
        assert!(matches!(
            source.end_session(&mut backoff, SessionEnd::Failed),
            Next::Wait(_)
        ));
    }
}

#[test]
fn reports_reconnect_exhausted_when_server_is_unreachable() {
    let mut source = DydxMarketData::new(test_config());
    let mut backoff = source.backoff();
    source.end_session(&mut backoff, SessionEnd::Failed);
    assert!(matches!(
        source.end_session(&mut backoff, SessionEnd::Failed),
        Next::Stop(MarketDataError::ReconnectExhausted { .. })
    ));
    assert_eq!(source.connection_status(), ConnectionStatus::Disconnected);
}

#[test]
fn source_that_nobody_listens_to_stops() {
    let mut source = started();
    let mut backoff = source.backoff();
    assert_eq!(
        source.end_session(&mut backoff, SessionEnd::ChannelClosed),
        Next::Stop(MarketDataError::ChannelClosed)
    );
    source.on_message(&Incoming::Unreadable, trace(), &Clock::start());
    assert_eq!(source.metrics().parse_errors, 1);
    assert_eq!(source.url(), "wss://indexer.dydx.trade/v4/ws");
}

#[test]
fn contents_may_name_a_side() {
    let member = |key: &str| Json::Object(vec![(String::from(key), Json::Array(vec![]))]);
    assert!(names_a_side(&member("bids")));
    assert!(names_a_side(&member("asks")));
    assert!(!names_a_side(&member("orderbook")));
    assert!(!names_a_side(&Json::Null));
}
