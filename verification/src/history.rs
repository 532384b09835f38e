//! The historical backfill.

pub mod args;
pub mod rolling;
