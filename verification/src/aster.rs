//! Aster: a snapshot over REST, changes over a stream.

pub mod book_builder;
pub mod market_data;
pub mod message;
