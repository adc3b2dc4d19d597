//! What the library takes from other crates: the declared types, the names of
//! what their values hold, and the contracts of the functions that are called.

pub mod bytes_crate;
pub mod futures_crate;
pub mod h2_crate;
pub mod http_crate;
pub mod httparse_crate;
pub mod std_sync;
pub mod std_time;
pub mod tokio_crate;
pub mod want_crate;
