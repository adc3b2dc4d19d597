//! Message bodies.

pub mod incoming;
pub mod length;

pub use crate::body::incoming::{Frame, Incoming, SizeHint};
pub use crate::body::length::DecodedLength;
