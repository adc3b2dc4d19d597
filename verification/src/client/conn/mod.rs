//! Connections of a client.

pub mod http1;
pub mod http2;

pub use crate::client::dispatch::TrySendError;
