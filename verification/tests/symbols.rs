//! Venues and instruments.

use perp_arb::symbol::{Dex, Symbol};

#[test]
fn dex_symbol_roundtrip() {
    for dex in Dex::ALL {
        for sym in Symbol::ALL {
            let raw = sym.to_dex_symbol(dex);
            assert_eq!(
                Symbol::from_dex_symbol(dex, raw),
                Some(sym),
                "{} {}",
                dex.as_str(),
                raw
            );
        }
    }
}

#[test]
fn from_dex_symbol_is_case_insensitive() {
    assert_eq!(
        Symbol::from_dex_symbol(Dex::EdgeX, "btcusd"),
        Some(Symbol::Btc)
    );
    assert_eq!(
        Symbol::from_dex_symbol(Dex::Hyperliquid, "hype"),
        Some(Symbol::Hype)
    );
}

#[test]
fn symbol_unknown_symbol_is_none() {
    assert_eq!(Symbol::from_dex_symbol(Dex::Hyperliquid, "DOGE"), None);
    assert_eq!(Symbol::from_dex_symbol(Dex::EdgeX, "BTC"), None);
    assert_eq!(Symbol::from_dex_symbol(Dex::Aster, "BTCUSD"), None);
}

#[test]
fn aster_and_lighter_mappings() {
    assert_eq!(Symbol::Btc.to_dex_symbol(Dex::Aster), "BTCUSDT");
    assert_eq!(Symbol::Hype.to_dex_symbol(Dex::Aster), "HYPEUSDT");
    assert_eq!(Symbol::Btc.to_dex_symbol(Dex::Lighter), "BTC");
    assert_eq!(Symbol::Hype.to_dex_symbol(Dex::Lighter), "HYPE");

    // Only the stream names of Aster are in lower case.
    assert_eq!(Symbol::Btc.to_stream_symbol(Dex::Aster), "btcusdt");
    assert_eq!(Symbol::Btc.to_stream_symbol(Dex::Lighter), "BTC");

    assert_eq!(
        Symbol::from_dex_symbol(Dex::Aster, "btcusdt"),
        Some(Symbol::Btc)
    );
}

#[test]
fn dex_ordering_is_canonical() {
    assert!(Dex::Hyperliquid < Dex::EdgeX);
    assert!(Dex::EdgeX < Dex::Aster);
    assert!(Dex::Aster < Dex::Lighter);
    assert!(Dex::Lighter < Dex::Dydx);
    assert_eq!(Dex::ALL.len(), 5);
}

#[test]
fn dex_parses_from_string() {
    assert_eq!("aster".parse::<Dex>().unwrap(), Dex::Aster);
    assert_eq!("Lighter".parse::<Dex>().unwrap(), Dex::Lighter);
    assert_eq!("dydx".parse::<Dex>().unwrap(), Dex::Dydx);
    assert!("binance".parse::<Dex>().is_err());
}

#[test]
fn dydx_uses_hyphenated_usd_markets() {
    assert_eq!(Symbol::Btc.to_dex_symbol(Dex::Dydx), "BTC-USD");
    assert_eq!(Symbol::Sol.to_dex_symbol(Dex::Dydx), "SOL-USD");
    assert_eq!(Symbol::Btc.to_stream_symbol(Dex::Dydx), "BTC-USD");
    assert_eq!(
        Symbol::from_dex_symbol(Dex::Dydx, "eth-usd"),
        Some(Symbol::Eth)
    );
    assert_eq!(Symbol::from_dex_symbol(Dex::Dydx, "BTCUSD"), None);
}

#[test]
fn only_dydx_allows_crossed_books() {
    assert!(Dex::Dydx.allows_crossed_book());
    for dex in [Dex::Hyperliquid, Dex::EdgeX, Dex::Aster, Dex::Lighter] {
        assert!(!dex.allows_crossed_book(), "{}", dex.as_str());
    }
}

#[test]
fn symbol_serde_uses_canonical_string() {
    let written: Vec<String> = serde_json::from_str(r#"["BTC","eth"]"#).unwrap();
    let parsed: Vec<Symbol> = written.iter().map(|s| s.parse().unwrap()).collect();
    assert_eq!(parsed, vec![Symbol::Btc, Symbol::Eth]);
    assert_eq!(
        serde_json::to_string(Symbol::Hype.as_str()).unwrap(),
        r#""HYPE""#
    );
}

#[test]
fn unknown_instruments_are_reported() {
    let e = Symbol::parse("DOGE").unwrap_err();
    assert!(e.message().contains("DOGE"));
    let e = Dex::parse("binance").unwrap_err();
    assert!(e.message().contains("binance"));
}
