//! Byte sources.

pub mod chain;
