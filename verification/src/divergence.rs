//! The divergence analysis.

pub mod analysis;
pub mod args;
pub mod input;
pub mod laws;
pub mod output;
pub mod ranking;
pub mod round_trip;
pub mod summary;
pub mod window;
