//! The bulk ingestion pipeline: an uploaded CSV plus its metadata become
//! validated, deduplicated measurement rows.
pub mod csv_table;
pub mod error;
pub mod key;
pub mod laws;
pub mod parse;
pub mod pipeline;
pub mod resolve;
