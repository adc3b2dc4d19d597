//! What goes with a message beyond its head and body.

pub mod h1_reason_phrase;
pub mod header_case;
pub mod header_order;
pub mod informational;
pub mod protocol;

pub use crate::ext::h1_reason_phrase::{InvalidReasonPhrase, ReasonPhrase};
pub use crate::ext::header_case::HeaderCaseMap;
pub use crate::ext::header_order::OriginalHeaderOrder;
pub use crate::ext::protocol::Protocol;
