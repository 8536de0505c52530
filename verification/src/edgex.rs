//! edgeX: snapshots and changes over one subscription.

pub mod book_builder;
pub mod market_data;
pub mod message;
pub mod meta;
