//! The `:protocol` of an extended CONNECT request.

use h2::ext::Protocol as H2Protocol;
use vstd::prelude::*;
use vstd::utf8::encode_utf8;

use crate::outside::h2_crate::{
    protocol_as_bytes, protocol_as_str, protocol_clone, protocol_from_static, protocol_from_str,
    protocol_text,
};

verus! {

/// The name of a protocol.
#[derive(Debug, PartialEq, Eq)]
pub struct Protocol {
    inner: H2Protocol,
}

impl View for Protocol {
    type V = Seq<char>;

    closed spec fn view(&self) -> Seq<char> {
        protocol_text(self.inner)
    }
}

impl Protocol {
    /// The protocol of a name.
    pub fn from_static(value: &'static str) -> (r: Protocol)
        ensures
            r@ == value@,
    {
        Protocol { inner: protocol_from_static(value) }
    }

    /// The name of the protocol.
    pub fn as_str(&self) -> (s: &str)
        ensures
            s@ == self@,
    {
        protocol_as_str(&self.inner)
    }

    /// The name of the protocol in UTF-8.
    pub fn as_bytes(&self) -> (s: &[u8])
        ensures
            s@ == encode_utf8(self@),
    {
        protocol_as_bytes(&self.inner)
    }

    /// The protocol as the HTTP/2 layer knows it.
    pub fn from_inner(inner: H2Protocol) -> (r: Protocol)
        ensures
            r@ == protocol_text(inner),
    {
        Protocol { inner }
    }

    /// The protocol for the HTTP/2 layer.
    pub fn into_inner(self) -> (inner: H2Protocol)
        ensures
            protocol_text(inner) == self@,
    {
        self.inner
    }
}

impl Clone for Protocol {
    fn clone(&self) -> (r: Protocol)
        ensures
            r@ == self@,
    {
        Protocol { inner: protocol_clone(&self.inner) }
    }
}

impl<'a> From<&'a str> for Protocol {
    fn from(value: &'a str) -> (r: Protocol)
        ensures
            r@ == value@,
    {
        Protocol { inner: protocol_from_str(value) }
    }
}

// What the conversion gives is stated at the conversion itself.
impl<'a> vstd::std_specs::convert::FromSpecImpl<&'a str> for Protocol {
    open spec fn obeys_from_spec() -> bool {
        false
    }

    open spec fn from_spec(v: &'a str) -> Protocol {
        arbitrary()
    }
}

} // verus!
