//! The reason phrase of an HTTP/1 response.

use bytes::Bytes;
use vstd::prelude::*;
use vstd::string::StringExecFns;
use vstd::string::StringSliceAdditionalSpecFns;
use vstd::utf8::encode_utf8;

use crate::common::ascii::{decimal, decimal_text};
use crate::outside::bytes_crate::{
    bytes_clone, bytes_from_string, bytes_from_vec, bytes_slice, content,
};

verus! {

/// A reason phrase.
#[derive(Debug, PartialEq, Eq, PartialOrd, Ord, Hash)]
pub struct ReasonPhrase(Bytes);

/// The error of a reason phrase that holds a byte which it may not hold.
#[derive(Debug)]
pub struct InvalidReasonPhrase {
    bad_byte: u8,
}

/// Whether a byte may stand in a reason phrase: a tab, a space, a visible ASCII
/// character, or a byte beyond ASCII.
pub open spec fn phrase_byte(b: u8) -> bool {
    b == 0x09 || b == 0x20 || 0x21 <= b <= 0x7E || 0x80 <= b
}

/// Whether bytes can be a reason phrase.
pub open spec fn is_phrase(s: Seq<u8>) -> bool {
    forall|i: int| 0 <= i < s.len() ==> phrase_byte(#[trigger] s[i])
}

/// The first byte that may not stand in a reason phrase.
pub open spec fn first_invalid(s: Seq<u8>) -> Option<u8>
    decreases s.len(),
{
    if s.len() == 0 {
        None
    } else if !phrase_byte(s[0]) {
        Some(s[0])
    } else {
        first_invalid(s.skip(1))
    }
}

/// What making a reason phrase of some bytes gives.
pub open spec fn phrase_result(
    s: Seq<u8>,
    r: std::result::Result<ReasonPhrase, InvalidReasonPhrase>,
) -> bool {
    match first_invalid(s) {
        None => r is Ok && r->Ok_0.bytes() == s,
        Some(b) => r is Err && r->Err_0.byte() == b,
    }
}

/// Whether a byte may stand in a reason phrase.
pub fn is_valid_byte(b: u8) -> (r: bool)
    ensures
        r == phrase_byte(b),
{
    b == 0x09 || b == 0x20 || (0x21 <= b && b <= 0x7E) || 0x80 <= b
}

/// The first byte that may not stand in a reason phrase.
pub fn find_invalid_byte(bytes: &[u8]) -> (r: Option<u8>)
    ensures
        r == first_invalid(bytes@),
{
    let mut i: usize = 0;
    assert(bytes@.skip(0) =~= bytes@);
    while i < bytes.len()
        invariant
            i <= bytes.len(),
            first_invalid(bytes@) == first_invalid(bytes@.skip(i as int)),
        decreases bytes.len() - i,
    {
        let b: u8 = bytes[i];
        if !is_valid_byte(b) {
            return Some(b);
        }
        assert(bytes@.skip(i as int).skip(1) =~= bytes@.skip(i + 1));
        i = i + 1;
    }
    None
}

impl ReasonPhrase {
    /// The bytes of the phrase.
    pub closed spec fn bytes(&self) -> Seq<u8> {
        content(self.0)
    }

    /// The bytes of the phrase.
    pub fn as_bytes(&self) -> (s: &[u8])
        ensures
            s@ == self.bytes(),
    {
        bytes_slice(&self.0)
    }

    /// The phrase of bytes that are known to be one.
    pub fn from_static(reason: &'static [u8]) -> (r: ReasonPhrase)
        requires
            is_phrase(reason@),
        ensures
            r.bytes() == reason@,
    {
        ReasonPhrase(Bytes::from_static(reason))
    }

    /// The phrase of bytes that a parser has already looked at.
    pub fn from_bytes_unchecked(reason: Bytes) -> (r: ReasonPhrase)
        ensures
            r.bytes() == content(reason),
    {
        ReasonPhrase(reason)
    }
}

impl Clone for ReasonPhrase {
    fn clone(&self) -> (r: ReasonPhrase)
        ensures
            r.bytes() == self.bytes(),
    {
        ReasonPhrase(bytes_clone(&self.0))
    }
}

impl<'a> TryFrom<&'a [u8]> for ReasonPhrase {
    type Error = InvalidReasonPhrase;

    fn try_from(reason: &'a [u8]) -> (r: std::result::Result<ReasonPhrase, InvalidReasonPhrase>)
        ensures
            phrase_result(reason@, r),
    {
        match find_invalid_byte(reason) {
            Some(bad_byte) => Err(InvalidReasonPhrase { bad_byte }),
            None => Ok(ReasonPhrase(Bytes::copy_from_slice(reason))),
        }
    }
}

// What the conversion gives is stated at the conversion itself.
impl<'a> vstd::std_specs::convert::TryFromSpecImpl<&'a [u8]> for ReasonPhrase {
    open spec fn obeys_try_from_spec() -> bool {
        false
    }

    open spec fn try_from_spec(v: &'a [u8]) -> std::result::Result<
        ReasonPhrase,
        InvalidReasonPhrase,
    > {
        arbitrary()
    }
}

impl TryFrom<Vec<u8>> for ReasonPhrase {
    type Error = InvalidReasonPhrase;

    fn try_from(reason: Vec<u8>) -> (r: std::result::Result<ReasonPhrase, InvalidReasonPhrase>)
        ensures
            phrase_result(reason@, r),
    {
        match find_invalid_byte(reason.as_slice()) {
            Some(bad_byte) => Err(InvalidReasonPhrase { bad_byte }),
            None => Ok(ReasonPhrase(bytes_from_vec(reason))),
        }
    }
}

// What the conversion gives is stated at the conversion itself.
impl vstd::std_specs::convert::TryFromSpecImpl<Vec<u8>> for ReasonPhrase {
    open spec fn obeys_try_from_spec() -> bool {
        false
    }

    open spec fn try_from_spec(v: Vec<u8>) -> std::result::Result<
        ReasonPhrase,
        InvalidReasonPhrase,
    > {
        arbitrary()
    }
}

impl TryFrom<String> for ReasonPhrase {
    type Error = InvalidReasonPhrase;

    fn try_from(reason: String) -> (r: std::result::Result<ReasonPhrase, InvalidReasonPhrase>)
        ensures
            phrase_result(encode_utf8(reason@), r),
    {
        match find_invalid_byte(reason.as_str().as_bytes()) {
            Some(bad_byte) => Err(InvalidReasonPhrase { bad_byte }),
            None => Ok(ReasonPhrase(bytes_from_string(reason))),
        }
    }
}

// What the conversion gives is stated at the conversion itself.
impl vstd::std_specs::convert::TryFromSpecImpl<String> for ReasonPhrase {
    open spec fn obeys_try_from_spec() -> bool {
        false
    }

    open spec fn try_from_spec(v: String) -> std::result::Result<
        ReasonPhrase,
        InvalidReasonPhrase,
    > {
        arbitrary()
    }
}

impl TryFrom<Bytes> for ReasonPhrase {
    type Error = InvalidReasonPhrase;

    fn try_from(reason: Bytes) -> (r: std::result::Result<ReasonPhrase, InvalidReasonPhrase>)
        ensures
            phrase_result(content(reason), r),
    {
        match find_invalid_byte(bytes_slice(&reason)) {
            Some(bad_byte) => Err(InvalidReasonPhrase { bad_byte }),
            None => Ok(ReasonPhrase(reason)),
        }
    }
}

// What the conversion gives is stated at the conversion itself.
impl vstd::std_specs::convert::TryFromSpecImpl<Bytes> for ReasonPhrase {
    open spec fn obeys_try_from_spec() -> bool {
        false
    }

    open spec fn try_from_spec(v: Bytes) -> std::result::Result<
        ReasonPhrase,
        InvalidReasonPhrase,
    > {
        arbitrary()
    }
}

impl From<ReasonPhrase> for Bytes {
    fn from(reason: ReasonPhrase) -> (r: Bytes)
        ensures
            content(r) == reason.bytes(),
    {
        reason.0
    }
}

// What the conversion gives is stated at the conversion itself.
impl vstd::std_specs::convert::FromSpecImpl<ReasonPhrase> for Bytes {
    open spec fn obeys_from_spec() -> bool {
        false
    }

    open spec fn from_spec(v: ReasonPhrase) -> Bytes {
        arbitrary()
    }
}

impl InvalidReasonPhrase {
    /// The byte that may not stand there.
    pub closed spec fn byte(&self) -> u8 {
        self.bad_byte
    }

    /// The error in words.
    pub fn text(&self) -> (text: String)
        ensures
            text@ == "Invalid byte in reason phrase: "@ + decimal(self.byte() as nat),
    {
        let mut text: String = String::from_str("Invalid byte in reason phrase: ");
        let digits: String = decimal_text(self.bad_byte as u64);
        text.append(digits.as_str());
        text
    }
}

/// Bytes are refused exactly when they hold one that may not stand in a reason
/// phrase; the first such byte is the one that is named.
pub proof fn law_first_invalid(s: Seq<u8>)
    ensures
        first_invalid(s) is None <==> is_phrase(s),
        first_invalid(s) is Some ==> exists|i: int|
            0 <= i < s.len() && #[trigger] s[i] == first_invalid(s)->0 && !phrase_byte(s[i])
                && is_phrase(s.take(i)),
    decreases s.len(),
{
    if s.len() > 0 {
        let rest = s.skip(1);
        if !phrase_byte(s[0]) {
            assert(is_phrase(s.take(0)));
            assert(s[0] == first_invalid(s)->0);
        } else {
            law_first_invalid(rest);
            if is_phrase(rest) {
                assert forall|i: int| 0 <= i < s.len() implies phrase_byte(#[trigger] s[i]) by {
                    if i > 0 {
                        assert(s[i] == rest[i - 1]);
                    }
                }
            } else {
                let i = choose|i: int|
                    0 <= i < rest.len() && #[trigger] rest[i] == first_invalid(rest)->0
                        && !phrase_byte(rest[i]) && is_phrase(rest.take(i));
                assert(s[i + 1] == rest[i]);
                let before = s.take(i + 1);
                assert forall|j: int| 0 <= j < before.len() implies phrase_byte(
                    #[trigger] before[j],
                ) by {
                    if j > 0 {
                        assert(before[j] == rest.take(i)[j - 1]);
                    }
                }
            }
        }
    }
}

/// A phrase that was checked holds no line break, so that it cannot end the line
/// that it stands in.
pub proof fn law_no_line_break(s: Seq<u8>, i: int)
    requires
        first_invalid(s) is None,
        0 <= i < s.len(),
    ensures
        s[i] != 0x0A,
        s[i] != 0x0D,
{
    law_first_invalid(s);
    assert(phrase_byte(s[i]));
}

/// A byte may stand in a reason phrase exactly when it is a tab (9) or no control: at
/// least 32, and not 127.
pub proof fn law_bytes_of_phrases(b: u8)
    ensures
        phrase_byte(b) <==> b == 9 || b >= 32 && b != 127,
{
}

/// Bytes become a phrase, unchanged, exactly when every one of them is a tab (9) or no
/// control; else the first that is not is named.
pub proof fn law_phrases_are_kept(
    s: Seq<u8>,
    r: std::result::Result<ReasonPhrase, InvalidReasonPhrase>,
)
    requires
        phrase_result(s, r),
    ensures
        r is Ok <==> forall|i: int|
            0 <= i < s.len() ==> #[trigger] s[i] == 9 || s[i] >= 32 && s[i] != 127,
        r is Ok ==> r->Ok_0.bytes() == s,
        r is Err ==> exists|i: int|
            0 <= i < s.len() && #[trigger] s[i] == r->Err_0.byte() && s[i] != 9 && (s[i] < 32
                || s[i] == 127) && forall|j: int|
                0 <= j < i ==> #[trigger] s[j] == 9 || s[j] >= 32 && s[j] != 127,
{
    law_first_invalid(s);
    if r is Ok {
        assert forall|i: int| 0 <= i < s.len() implies #[trigger] s[i] == 9 || s[i] >= 32 && s[i]
            != 127 by {
            assert(phrase_byte(s[i]));
        }
    } else {
        let i = choose|i: int|
            0 <= i < s.len() && #[trigger] s[i] == first_invalid(s)->0 && !phrase_byte(s[i])
                && is_phrase(s.take(i));
        assert forall|j: int| 0 <= j < i implies #[trigger] s[j] == 9 || s[j] >= 32 && s[j]
            != 127 by {
            assert(s.take(i)[j] == s[j]);
        }
        assert(s[i] == r->Err_0.byte());
    }
}

} // verus!
