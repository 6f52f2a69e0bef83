//! Futures.

pub mod join;
pub mod maybe_done;
