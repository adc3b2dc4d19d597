//! The client side.

pub mod conn;
pub mod dispatch;
