//! The configuration.

use perp_arb::config::{
    AsterConfig, Config, ConfigError, CsvMode, LighterConfig, ReconnectPolicy,
};
use perp_arb::decimal::Decimal;
use perp_arb::symbol::{Dex, Symbol};
use perp_arb::time::Duration;

fn dec(text: &str) -> Decimal {
    Decimal::parse(text).unwrap()
}

fn symbols(value: &toml::Value) -> Vec<Symbol> {
    value
        .as_array()
        .unwrap()
        .iter()
        .map(|v| Symbol::parse(v.as_str().unwrap()).unwrap())
        .collect()
}

fn text(value: &toml::Value) -> String {
    String::from(value.as_str().unwrap())
}

fn number(value: &toml::Value) -> u64 {
    value.as_integer().unwrap() as u64
}

#[test]
fn defaults_are_valid() {
    Config::default().validate().unwrap();
}

#[test]
fn parses_documented_example() {
    let toml_src = r#"
[general]
symbols = ["BTC", "ETH", "SOL", "HYPE"]
orderbook_depth = 20

[dex.edgex]
enabled = true
contract_ids = { BTC = "10000001" }

[recording]
csv_mode = "all"
"#;
    let doc: toml::Value = toml_src.parse::<toml::Table>().map(toml::Value::Table).unwrap();
    let mut cfg = Config::default();
    cfg.general.symbols = symbols(&doc["general"]["symbols"]);
    cfg.general.orderbook_depth = number(&doc["general"]["orderbook_depth"]) as usize;
    cfg.dex.edgex.contract_ids = doc["dex"]["edgex"]["contract_ids"]
        .as_table()
        .unwrap()
        .iter()
        .map(|(k, v)| (Symbol::parse(k).unwrap(), text(v)))
        .collect();
    cfg.validate().unwrap();
    assert_eq!(cfg.general.symbols.len(), 4);
    assert_eq!(cfg.general.orderbook_depth, 20);
    assert_eq!(cfg.recording.csv_mode, CsvMode::All);
    assert_eq!(
        cfg.dex.edgex.contract_ids,
        vec![(Symbol::Btc, String::from("10000001"))]
    );
    // What the file leaves out has its default.
    assert_eq!(cfg.dex.hyperliquid.ping_interval_secs, 30);
    assert_eq!(cfg.general.vwap_notional_usd, dec("1000"));
}

#[test]
fn empty_toml_yields_defaults() {
    let cfg = Config::default();
    cfg.validate().unwrap();
    assert_eq!(cfg.general.symbols, Symbol::ALL.to_vec());
}

#[test]
fn rejects_invalid_values() {
    let mut cfg = Config::default();
    cfg.general.symbols.clear();
    assert!(cfg.validate().is_err());

    let mut cfg = Config::default();
    cfg.general.orderbook_depth = 0;
    assert!(cfg.validate().is_err());

    let mut cfg = Config::default();
    cfg.dex.hyperliquid.enabled = false;
    cfg.dex.edgex.enabled = false;
    cfg.dex.aster.enabled = false;
    cfg.dex.lighter.enabled = false;
    assert!(cfg.validate().is_err());
}

#[test]
fn parses_aster_and_lighter_sections() {
    let toml_src = r#"
[dex.aster]
snapshot_limit = 1000
reconnect_before_hours = 23

[dex.lighter]
ws_url = "wss://mainnet.zklighter.elliot.ai/stream"
testnet_ws_url = "wss://testnet.zklighter.elliot.ai/stream"
use_testnet = false
"#;
    let doc: toml::Value = toml_src.parse::<toml::Table>().map(toml::Value::Table).unwrap();
    let mut cfg = Config::default();
    cfg.dex.aster.snapshot_limit = number(&doc["dex"]["aster"]["snapshot_limit"]) as u32;
    cfg.dex.aster.reconnect_before_hours = number(&doc["dex"]["aster"]["reconnect_before_hours"]);
    cfg.dex.lighter.ws_url = text(&doc["dex"]["lighter"]["ws_url"]);
    cfg.dex.lighter.testnet_ws_url = text(&doc["dex"]["lighter"]["testnet_ws_url"]);
    cfg.dex.lighter.use_testnet = doc["dex"]["lighter"]["use_testnet"].as_bool().unwrap();
    cfg.validate().unwrap();

    assert_eq!(cfg.dex.aster.snapshot_limit, 1000);
    assert_eq!(
        cfg.dex.aster.session_max_duration(),
        Some(Duration::from_secs(23 * 3600))
    );
    assert_eq!(
        cfg.dex.lighter.effective_ws_url(),
        "wss://mainnet.zklighter.elliot.ai/stream"
    );
    assert_eq!(
        cfg.enabled_dexes(),
        vec![Dex::Hyperliquid, Dex::EdgeX, Dex::Aster, Dex::Lighter]
    );
}

#[test]
fn aster_stream_and_snapshot_urls() {
    let cfg = AsterConfig::default();
    assert_eq!(cfg.depth_stream_name(Symbol::Btc), "btcusdt@depth@100ms");
    assert_eq!(
        cfg.snapshot_url(Symbol::Hype),
        "https://fapi.asterdex.com/fapi/v1/depth?symbol=HYPEUSDT&limit=1000"
    );

    let cfg = AsterConfig {
        depth_stream_interval: String::new(),
        ..Default::default()
    };
    assert_eq!(cfg.depth_stream_name(Symbol::Eth), "ethusdt@depth");
}

#[test]
fn lighter_switches_to_testnet() {
    let cfg = LighterConfig {
        use_testnet: true,
        ..Default::default()
    };
    assert_eq!(
        cfg.effective_ws_url(),
        "wss://testnet.zklighter.elliot.ai/stream"
    );
}

#[test]
fn excluded_symbols_are_filtered_per_dex() {
    let doc: toml::Value = r#"
[general]
symbols = ["BTC", "ETH", "HYPE"]

[dex.lighter]
excluded_symbols = ["HYPE"]
"#
    .parse::<toml::Table>()
    .map(toml::Value::Table)
    .unwrap();
    let mut cfg = Config::default();
    cfg.general.symbols = symbols(&doc["general"]["symbols"]);
    cfg.dex.lighter.excluded_symbols = symbols(&doc["dex"]["lighter"]["excluded_symbols"]);
    cfg.validate().unwrap();

    assert_eq!(
        cfg.symbols_for(Dex::Lighter),
        vec![Symbol::Btc, Symbol::Eth]
    );
    assert_eq!(
        cfg.symbols_for(Dex::Aster),
        vec![Symbol::Btc, Symbol::Eth, Symbol::Hype]
    );
}

#[test]
fn enabled_dexes_reflects_flags() {
    let mut cfg = Config::default();
    cfg.dex.edgex.enabled = false;
    cfg.dex.lighter.enabled = false;
    assert_eq!(cfg.enabled_dexes(), vec![Dex::Hyperliquid, Dex::Aster]);
    cfg.validate().unwrap();

    cfg.dex.hyperliquid.enabled = false;
    cfg.dex.aster.enabled = false;
    assert!(cfg.validate().is_err());
}

#[test]
fn rejects_dangerous_lighter_keepalive() {
    let mut cfg = Config::default();
    cfg.dex.lighter.keepalive_interval_secs = 120;
    assert!(cfg.validate().is_err());

    cfg.dex.lighter.keepalive_interval_secs = 119;
    cfg.validate().unwrap();
}

#[test]
fn rejects_excluding_every_symbol() {
    let mut cfg = Config::default();
    cfg.dex.aster.excluded_symbols = Symbol::ALL.to_vec();
    assert!(cfg.validate().is_err());
}

#[test]
fn vwap_notional_disabled_when_zero() {
    let mut cfg = Config::default();
    cfg.general.vwap_notional_usd = Decimal::zero();
    assert!(cfg.vwap_notional().is_none());
    cfg.general.vwap_notional_usd = dec("500");
    assert_eq!(cfg.vwap_notional(), Some(dec("500")));
}

#[test]
fn faults_are_named() {
    let mut cfg = Config::default();
    cfg.general.symbols.clear();
    assert_eq!(
        cfg.validate().unwrap_err().message(),
        "設定値が不正: symbols が空です"
    );
    let e = ConfigError::Io {
        path: String::from("a.toml"),
        source: String::from("gone"),
    };
    assert_eq!(e.message(), "設定ファイルを読めません (a.toml): gone");
}

#[test]
fn funding_intervals_are_never_guessed() {
    let mut cfg = Config::default();
    cfg.funding.intervals_hours.clear();
    assert_eq!(cfg.funding_interval_hours(Dex::Lighter), None);
    assert!(cfg.dexes_missing_funding_interval().contains(&Dex::Lighter));
    cfg.funding.intervals_hours.push((Dex::Lighter, dec("1")));
    assert_eq!(cfg.funding_interval_hours(Dex::Lighter), Some(dec("1")));
    assert!(!cfg.dexes_missing_funding_interval().contains(&Dex::Lighter));
}

#[test]
fn reconnect_policies_follow_the_configuration() {
    let mut cfg = Config::default();
    cfg.dex.dydx.reconnect_max_attempts = 7;
    cfg.dex.dydx.reconnect_base_delay_ms = 8;
    cfg.dex.dydx.reconnect_max_delay_ms = 9;
    assert_eq!(
        cfg.dex.dydx.reconnect_policy(),
        ReconnectPolicy {
            max_attempts: 7,
            base_delay_ms: 8,
            max_delay_ms: 9
        }
    );
}

#[test]
fn connection_without_a_limit_is_kept() {
    let cfg = AsterConfig {
        reconnect_before_hours: 0,
        ..Default::default()
    };
    assert_eq!(cfg.session_max_duration(), None);
}
