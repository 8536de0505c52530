//! Lighter: snapshots, changes and market statistics over one connection.

pub mod book_builder;
pub mod market_data;
pub mod message;
