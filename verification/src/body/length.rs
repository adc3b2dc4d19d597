//! The length of a body, as far as it is known before the body is read.

use vstd::prelude::*;
use vstd::string::StringExecFns;

use crate::common::ascii::{decimal, decimal_text};
use crate::error::Parse;

verus! {

/// The largest length that can be known.
pub const MAX_LEN: u64 = 0xffff_ffff_ffff_fffd;

/// The mark of a body that comes in chunks.
const CHUNKED_MARK: u64 = 0xffff_ffff_ffff_fffe;

/// The mark of a body that ends with the connection.
const CLOSE_DELIMITED_MARK: u64 = 0xffff_ffff_ffff_ffff;

/// The length of a body: a number of bytes, or one of two marks for a length
/// that is not known in advance.
#[derive(Debug, Clone, Copy, PartialEq, Eq, Structural)]
pub struct DecodedLength(pub u64);

impl DecodedLength {
    /// The number of bytes, where it is known.
    pub open spec fn known(&self) -> Option<u64> {
        if self.0 <= MAX_LEN {
            Some(self.0)
        } else {
            None
        }
    }

    /// The body comes in chunks.
    pub open spec fn spec_chunked() -> DecodedLength {
        DecodedLength((u64::MAX - 1) as u64)
    }

    /// The body ends with the connection.
    pub open spec fn spec_close_delimited() -> DecodedLength {
        DecodedLength(u64::MAX)
    }

    /// There is no body.
    pub open spec fn spec_zero() -> DecodedLength {
        DecodedLength(0)
    }

    /// The length that an optional number of bytes gives: chunks where there is no
    /// number, or where it is too large.
    pub open spec fn spec_from(len: Option<u64>) -> DecodedLength {
        match len {
            Some(n) => if n <= MAX_LEN {
                DecodedLength(n)
            } else {
                DecodedLength::spec_chunked()
            },
            None => DecodedLength::spec_chunked(),
        }
    }

    /// A known length, unless it is too large.
    pub open spec fn spec_checked(len: u64) -> Result<DecodedLength, Parse> {
        if len <= MAX_LEN {
            Ok(DecodedLength(len))
        } else {
            Err(Parse::TooLarge)
        }
    }

    /// The length once some bytes have been read.
    pub open spec fn minus(&self, amt: u64) -> DecodedLength {
        match self.known() {
            Some(n) => DecodedLength((n - amt) as u64),
            None => *self,
        }
    }

    /// Whether so many bytes can still come.
    pub open spec fn admits(&self, amt: u64) -> bool {
        self.known() is Some ==> amt <= self.known()->0
    }

    /// The body comes in chunks.
    pub fn chunked() -> (r: DecodedLength)
        ensures
            r == DecodedLength::spec_chunked(),
    {
        DecodedLength(CHUNKED_MARK)
    }

    /// The body ends with the connection.
    pub fn close_delimited() -> (r: DecodedLength)
        ensures
            r == DecodedLength::spec_close_delimited(),
    {
        DecodedLength(CLOSE_DELIMITED_MARK)
    }

    /// There is no body.
    pub fn zero() -> (r: DecodedLength)
        ensures
            r == DecodedLength::spec_zero(),
    {
        DecodedLength(0)
    }

    /// A known length.
    pub fn new(len: u64) -> (r: DecodedLength)
        requires
            len <= MAX_LEN,
        ensures
            r.known() == Some(len),
            r == DecodedLength(len),
    {
        DecodedLength(len)
    }

    /// The number of bytes of a length that is known.
    pub fn danger_len(self) -> (n: u64)
        requires
            self.known() is Some,
        ensures
            self.known() == Some(n),
    {
        self.0
    }

    /// The number of bytes, where it is known.
    pub fn into_opt(self) -> (n: Option<u64>)
        ensures
            n == self.known(),
    {
        if self.0 == CHUNKED_MARK || self.0 == CLOSE_DELIMITED_MARK {
            None
        } else {
            Some(self.0)
        }
    }

    /// A known length, unless it is too large.
    pub fn checked_new(len: u64) -> (r: Result<DecodedLength, Parse>)
        ensures
            r == DecodedLength::spec_checked(len),
    {
        if len <= MAX_LEN {
            Ok(DecodedLength(len))
        } else {
            Err(Parse::TooLarge)
        }
    }

    /// Takes bytes that were read off the length, where it is known.
    pub fn sub_if(&mut self, amt: u64)
        requires
            old(self).admits(amt),
        ensures
            *final(self) == old(self).minus(amt),
    {
        if self.0 == CHUNKED_MARK || self.0 == CLOSE_DELIMITED_MARK {
            return;
        }
        self.0 = self.0 - amt;
    }

    /// Whether the length is known.
    pub fn is_exact(&self) -> (r: bool)
        ensures
            r == (self.known() is Some),
    {
        self.0 <= MAX_LEN
    }

    /// The length in words.
    pub open spec fn spec_text(&self) -> Seq<char> {
        if *self == DecodedLength::spec_close_delimited() {
            "close-delimited"@
        } else if *self == DecodedLength::spec_chunked() {
            "chunked encoding"@
        } else if *self == DecodedLength::spec_zero() {
            "empty"@
        } else {
            "content-length ("@ + decimal(self.0 as nat) + " bytes)"@
        }
    }

    /// The length in words.
    pub fn text(&self) -> (text: String)
        ensures
            text@ == self.spec_text(),
    {
        if self.0 == CLOSE_DELIMITED_MARK {
            String::from_str("close-delimited")
        } else if self.0 == CHUNKED_MARK {
            String::from_str("chunked encoding")
        } else if self.0 == 0 {
            String::from_str("empty")
        } else {
            let mut text: String = String::from_str("content-length (");
            let digits: String = decimal_text(self.0);
            text.append(digits.as_str());
            text.append(" bytes)");
            text
        }
    }

    /// The length as it is shown to a programmer.
    pub open spec fn spec_debug_text(&self) -> Seq<char> {
        if *self == DecodedLength::spec_close_delimited() {
            "CLOSE_DELIMITED"@
        } else if *self == DecodedLength::spec_chunked() {
            "CHUNKED"@
        } else {
            "DecodedLength("@ + decimal(self.0 as nat) + ")"@
        }
    }

    /// The length as it is shown to a programmer.
    pub fn debug_text(&self) -> (text: String)
        ensures
            text@ == self.spec_debug_text(),
    {
        if self.0 == CLOSE_DELIMITED_MARK {
            String::from_str("CLOSE_DELIMITED")
        } else if self.0 == CHUNKED_MARK {
            String::from_str("CHUNKED")
        } else {
            let mut text: String = String::from_str("DecodedLength(");
            let digits: String = decimal_text(self.0);
            text.append(digits.as_str());
            text.append(")");
            text
        }
    }
}

impl From<Option<u64>> for DecodedLength {
    fn from(len: Option<u64>) -> (r: DecodedLength) {
        match len {
            Some(n) => match DecodedLength::checked_new(n) {
                Ok(r) => r,
                Err(_) => DecodedLength::chunked(),
            },
            None => DecodedLength::chunked(),
        }
    }
}

impl vstd::std_specs::convert::FromSpecImpl<Option<u64>> for DecodedLength {
    open spec fn obeys_from_spec() -> bool {
        true
    }

    open spec fn from_spec(v: Option<u64>) -> DecodedLength {
        DecodedLength::spec_from(v)
    }
}

/// The two marks are no known lengths, and differ.
pub proof fn law_marks_are_not_lengths()
    ensures
        DecodedLength::spec_chunked().known() is None,
        DecodedLength::spec_close_delimited().known() is None,
        DecodedLength::spec_chunked() != DecodedLength::spec_close_delimited(),
        forall|len: DecodedLength|
            (#[trigger] len.known()) is None ==> len == DecodedLength::spec_chunked() || len
                == DecodedLength::spec_close_delimited(),
{
}

/// A length made from a number of bytes gives that number back, up to the
/// largest that can be known.
pub proof fn law_length_round_trip(len: Option<u64>)
    ensures
        DecodedLength::spec_from(len).known() == (match len {
            Some(n) => if n <= MAX_LEN {
                Some(n)
            } else {
                None
            },
            None => None,
        }),
{
}

/// Reading bytes in two steps leaves what reading them in one step leaves.
pub proof fn law_minus_adds_up(len: DecodedLength, a: u64, b: u64)
    requires
        a + b <= u64::MAX,
        len.admits((a + b) as u64),
    ensures
        len.admits(a),
        len.minus(a).admits(b),
        len.minus(a).minus(b) == len.minus((a + b) as u64),
{
}

/// A length is known exactly when it is at most 0xffff_ffff_ffff_fffd, and is then the
/// number itself. The two numbers above stand for a body in chunks and for one that
/// ends with the connection.
pub proof fn law_known_lengths(len: DecodedLength)
    ensures
        len.known() is Some <==> len.0 <= 0xffff_ffff_ffff_fffd,
        len.known() is Some ==> len.known()->0 == len.0,
        MAX_LEN == 0xffff_ffff_ffff_fffd,
        DecodedLength::spec_chunked().0 == 0xffff_ffff_ffff_fffe,
        DecodedLength::spec_close_delimited().0 == 0xffff_ffff_ffff_ffff,
        DecodedLength::spec_zero().0 == 0,
{
}

/// A number of bytes that is too large to be known, or none, stands for a body in
/// chunks; any other for itself.
pub proof fn law_lengths_from_numbers(n: u64)
    ensures
        n <= 0xffff_ffff_ffff_fffd ==> DecodedLength::spec_from(Some(n)).0 == n,
        n > 0xffff_ffff_ffff_fffd ==> DecodedLength::spec_from(Some(n)).0
            == 0xffff_ffff_ffff_fffe,
        DecodedLength::spec_from(None).0 == 0xffff_ffff_ffff_fffe,
{
}

/// Bytes that were read go off a known length one by one; a length that is not known
/// admits any number of bytes and stays.
pub proof fn law_bytes_go_off(len: DecodedLength, amt: u64)
    ensures
        len.0 <= 0xffff_ffff_ffff_fffd ==> (len.admits(amt) <==> amt <= len.0),
        len.0 > 0xffff_ffff_ffff_fffd ==> len.admits(amt),
        len.0 <= 0xffff_ffff_ffff_fffd && amt <= len.0 ==> len.minus(amt).0 + amt == len.0,
        len.0 > 0xffff_ffff_ffff_fffd ==> len.minus(amt) == len,
{
}

/// The words for a length that is known and not zero hold the number in decimal behind
/// sixteen characters and before seven; a programmer sees any known number in decimal
/// behind fourteen characters and before one.
pub proof fn law_lengths_in_words(len: DecodedLength)
    requires
        len.0 <= 0xffff_ffff_ffff_fffd,
    ensures
        len.0 > 0 ==> len.spec_text() == "content-length ("@ + decimal(len.0 as nat)
            + " bytes)"@,
        len.0 == 0 ==> len.spec_text() == "empty"@,
        len.spec_debug_text() == "DecodedLength("@ + decimal(len.0 as nat) + ")"@,
        DecodedLength(0xffff_ffff_ffff_fffe).spec_text() == "chunked encoding"@,
        DecodedLength(0xffff_ffff_ffff_ffff).spec_text() == "close-delimited"@,
        DecodedLength(0xffff_ffff_ffff_fffe).spec_debug_text() == "CHUNKED"@,
        DecodedLength(0xffff_ffff_ffff_ffff).spec_debug_text() == "CLOSE_DELIMITED"@,
{
}

/// A length is taken exactly where it is at most 0xffff_ffff_ffff_fffd; one beyond is
/// too large.
pub proof fn law_lengths_that_are_taken(len: u64)
    ensures
        DecodedLength::spec_checked(len) is Ok <==> len <= 0xffff_ffff_ffff_fffd,
        len <= 0xffff_ffff_ffff_fffd ==> DecodedLength::spec_checked(len)->Ok_0.0 == len,
        len > 0xffff_ffff_ffff_fffd ==> DecodedLength::spec_checked(len)->Err_0
            == Parse::TooLarge,
{
}

} // verus!
