//! The C interface: the types that an application in C holds, and the rules
//! behind the functions that it calls.

pub mod body;
pub mod client;
pub mod error;
pub mod http_types;
pub mod io;
pub mod task;
