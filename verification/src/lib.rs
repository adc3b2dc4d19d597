#![allow(non_camel_case_types)]
//! Verified core of an HTTP client library: message bodies, header rules,
//! request dispatch, connection options, errors and the C interface.

pub mod body;
pub mod client;
pub mod common;
pub mod error;
pub mod ext;
pub mod ffi;
pub mod headers;
pub mod outside;

pub use crate::error::{Error, Result};
