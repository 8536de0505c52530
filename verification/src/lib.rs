//! Market data collection for perpetual futures venues.

pub mod aster;
pub mod backoff;
pub mod book;
pub mod by_dex;
pub mod by_symbol;
pub mod collector;
pub mod config;
pub mod dates;
pub mod decimal;
pub mod divergence;
pub mod dydx;
pub mod edgex;
pub mod fees;
pub mod funding;
pub mod funding_store;
pub mod hyperliquid;
pub mod json;
pub mod ladder;
pub mod latest;
pub mod lighter;
pub mod liquidity;
pub mod market_stats;
pub mod metrics;
pub mod num;
pub mod pairs;
pub mod rate_limit;
pub mod recorder;
pub mod source;
pub mod status;
pub mod store;
pub mod symbol;
pub mod text;
pub mod text_map;
pub mod time;
pub mod trace;
pub mod wire;
