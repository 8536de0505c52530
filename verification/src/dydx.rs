//! dYdX v4: snapshots and changes over one subscription to the indexer.

pub mod book_builder;
pub mod market_data;
pub mod message;
