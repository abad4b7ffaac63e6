//! Ingestion and gauge state for a fixed-layout telemetry log.
//!
//! The newest data file of a directory is chosen, its table is read, and the
//! last data row is mapped onto four quantities per module and a timestamp.
//! The metrics state keeps the current value of each as a gauge, and hands
//! out a snapshot for every scrape. A field without a value removes its
//! gauge instead of leaving a stale one.

pub mod layout;
pub mod text;
pub mod number;
pub mod field;
pub mod label;
pub mod gauges;
pub mod record;
pub mod state;
pub mod files;
pub mod table;
pub mod collector;
pub mod snapshot;
pub mod laws;
