//! Adapters of a transport.

pub mod compat;
pub mod rewind;
