//! The live poller.

pub mod args;
pub mod round;
pub mod sources;
pub mod tickers;
