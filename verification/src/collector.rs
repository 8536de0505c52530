//! The collector: what it does with books and rates as they come in.

pub mod aggregator;
pub mod monitor;
pub mod net_delta;
pub mod startup;
pub mod supervisor;
