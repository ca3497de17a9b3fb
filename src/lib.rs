//! Geographic-statistics catalog: reference entities served read-only, and a
//! bulk ingestion pipeline that turns an uploaded CSV plus a metadata
//! descriptor into validated, deduplicated measurement rows.
pub mod config;
pub mod controller;
pub mod decimal;
pub mod model;
pub mod upload;
