//! Hyperliquid: every message brings the whole book.

pub mod market_data;
pub mod message;
