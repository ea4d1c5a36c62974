//! A log-tailing and incremental-filtering engine.
//!
//! Raw journal records are parsed into typed entries, handed from a tailing
//! worker to the consumer through a bounded channel, collected in an
//! append-only buffer, and served through filtered index lists that are
//! extended incrementally as the buffer grows.

pub mod entry;
pub mod error;
pub mod filter;
pub mod parse;
pub mod priority;
pub mod reader;
pub mod units;
pub mod view;
pub mod worker;
