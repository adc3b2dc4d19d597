//! Errors of the C interface.

use vstd::prelude::*;
use vstd::string::StringSliceAdditionalSpecFns;
use vstd::utf8::encode_utf8;

use crate::error::{kind_text, Error, Kind, User};

verus! {

/// An error with its details.
#[derive(Debug)]
pub struct hyper_error(pub Error);

/// A plain return code.
#[derive(Debug, Clone, Copy, PartialEq, Eq, Structural)]
pub enum hyper_code {
    /// All is well.
    HYPERE_OK,
    /// A general error; an error object has its details.
    HYPERE_ERROR,
    /// An argument is invalid.
    HYPERE_INVALID_ARG,
    /// The transport ended where a message was expected.
    HYPERE_UNEXPECTED_EOF,
    /// A callback of the application asked to stop.
    HYPERE_ABORTED_BY_CALLBACK,
    /// An optional feature is not there.
    HYPERE_FEATURE_NOT_ENABLED,
    /// The peer sent a message that could not be parsed.
    HYPERE_INVALID_PEER_MESSAGE,
}

/// The code of an error of a kind.
pub open spec fn code_of(kind: Kind) -> hyper_code {
    match kind {
        Kind::Parse(_) => hyper_code::HYPERE_INVALID_PEER_MESSAGE,
        Kind::IncompleteMessage => hyper_code::HYPERE_UNEXPECTED_EOF,
        Kind::User(User::AbortedByCallback) => hyper_code::HYPERE_ABORTED_BY_CALLBACK,
        _ => hyper_code::HYPERE_ERROR,
    }
}

/// How many bytes of a text fit into a buffer.
pub open spec fn printed_len(text: Seq<u8>, buf: Seq<u8>) -> nat {
    if buf.len() <= text.len() {
        buf.len()
    } else {
        text.len()
    }
}

/// A buffer into which as much of a text was written as fits.
pub open spec fn printed(text: Seq<u8>, buf: Seq<u8>) -> Seq<u8> {
    text.take(printed_len(text, buf) as int) + buf.skip(printed_len(text, buf) as int)
}

impl hyper_error {
    /// The code of the error.
    pub fn code(&self) -> (code: hyper_code)
        ensures
            code == code_of(self.0.spec_kind()),
    {
        match self.0.kind() {
            Kind::Parse(_) => hyper_code::HYPERE_INVALID_PEER_MESSAGE,
            Kind::IncompleteMessage => hyper_code::HYPERE_UNEXPECTED_EOF,
            Kind::User(User::AbortedByCallback) => hyper_code::HYPERE_ABORTED_BY_CALLBACK,
            _ => hyper_code::HYPERE_ERROR,
        }
    }

    /// Writes the text of the error into a buffer, as much of it as fits, and says
    /// how many bytes that are.
    pub fn print_to(&self, dst: &mut [u8]) -> (n: usize)
        ensures
            n == printed_len(encode_utf8(kind_text(self.0.spec_kind())), old(dst)@),
            final(dst)@ == printed(encode_utf8(kind_text(self.0.spec_kind())), old(dst)@),
    {
        let text: &[u8] = self.0.description().as_bytes();
        let ghost before = dst@;
        let n: usize = if dst.len() <= text.len() {
            dst.len()
        } else {
            text.len()
        };
        let mut i: usize = 0;
        assert(text@.take(0) + before.skip(0) =~= before);
        while i < n
            invariant
                i <= n,
                n <= text.len(),
                n <= before.len(),
                dst@ == text@.take(i as int) + before.skip(i as int),
            decreases n - i,
        {
            dst[i] = text[i];
            assert(dst@ =~= text@.take(i + 1) + before.skip(i + 1));
            i = i + 1;
        }
        n
    }
}

/// No error is reported as success.
pub proof fn law_errors_are_not_ok(kind: Kind)
    ensures
        code_of(kind) != hyper_code::HYPERE_OK,
{
}

/// A code is that of the peer's message exactly when parsing failed, that of an end of
/// the transport exactly when a message was not complete, that of a callback exactly
/// when one asked to stop; all other errors have the general code.
pub proof fn law_codes_of_errors(kind: Kind)
    ensures
        code_of(kind) == hyper_code::HYPERE_INVALID_PEER_MESSAGE <==> kind is Parse,
        code_of(kind) == hyper_code::HYPERE_UNEXPECTED_EOF <==> kind == Kind::IncompleteMessage,
        code_of(kind) == hyper_code::HYPERE_ABORTED_BY_CALLBACK <==> kind == Kind::User(
            User::AbortedByCallback,
        ),
        !(kind is Parse) && kind != Kind::IncompleteMessage && kind != Kind::User(
            User::AbortedByCallback,
        ) ==> code_of(kind) == hyper_code::HYPERE_ERROR,
{
}

/// A text is written from its start, byte by byte, as far as the buffer reaches; what lies
/// behind it in the buffer stays, and so does the buffer's length.
pub proof fn law_texts_are_printed(text: Seq<u8>, buf: Seq<u8>, i: int)
    requires
        0 <= i < buf.len(),
    ensures
        printed(text, buf).len() == buf.len(),
        printed_len(text, buf) <= text.len(),
        printed_len(text, buf) <= buf.len(),
        printed_len(text, buf) == text.len() || printed_len(text, buf) == buf.len(),
        i < text.len() ==> printed(text, buf)[i] == text[i],
        i >= text.len() ==> printed(text, buf)[i] == buf[i],
{
}

} // verus!
