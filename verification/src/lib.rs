//! Prices of one asset at several exchanges.

pub mod args;
pub mod backfill;
pub mod clock;
pub mod divergence;
pub mod grid;
pub mod history;
pub mod json;
pub mod live;
pub mod ndjson;
pub mod number;
pub mod paging;
pub mod progress;
pub mod retry;
pub mod text;
pub mod venue;
