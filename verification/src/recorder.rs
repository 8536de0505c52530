//! What is written to files, and when. Prices, funding rates and positions go to files of their own:
//! they change at very different rates.

pub mod csv_writer;
pub mod fields;
pub mod funding_csv;
pub mod net_delta_csv;
pub mod open_files;
