//! Items of the `bytes` crate.

use bytes::{Buf, Bytes, BytesMut};
use vstd::prelude::*;
use vstd::utf8::encode_utf8;

verus! {

/// `bytes::Bytes`, a shared run of bytes.
#[verifier::external_type_specification]
#[verifier::external_body]
pub struct ExBytes(Bytes);

/// `bytes::BytesMut`, a run of bytes that can grow.
#[verifier::external_type_specification]
#[verifier::external_body]
pub struct ExBytesMut(BytesMut);

/// What a `Bytes` holds.
pub uninterp spec fn content(b: Bytes) -> Seq<u8>;

/// What a `BytesMut` holds.
pub uninterp spec fn content_mut(b: BytesMut) -> Seq<u8>;

/// `Bytes::new`: no bytes.
pub assume_specification[ Bytes::new ]() -> (b: Bytes)
    ensures
        content(b) == Seq::<u8>::empty(),
;

/// `Bytes::len`: the number of bytes.
pub assume_specification[ Bytes::len ](b: &Bytes) -> (n: usize)
    ensures
        n == content(*b).len(),
;

/// `Bytes::is_empty`: whether there are no bytes.
pub assume_specification[ Bytes::is_empty ](b: &Bytes) -> (r: bool)
    ensures
        r == (content(*b).len() == 0),
;

/// `Bytes::copy_from_slice`: the bytes of the slice.
pub assume_specification[ Bytes::copy_from_slice ](data: &[u8]) -> (b: Bytes)
    ensures
        content(b) == data@,
;

/// `Bytes::from_static`: the bytes of the slice.
pub assume_specification[ Bytes::from_static ](bytes: &'static [u8]) -> (b: Bytes)
    ensures
        content(b) == bytes@,
;

/// `From<Vec<u8>> for Bytes`: the bytes of the vector.
#[verifier::external_body]
pub(crate) fn bytes_from_vec(data: Vec<u8>) -> (b: Bytes)
    ensures
        content(b) == data@,
{
    Bytes::from(data)
}

/// `From<String> for Bytes`: the string in UTF-8.
#[verifier::external_body]
pub(crate) fn bytes_from_string(text: String) -> (b: Bytes)
    ensures
        content(b) == encode_utf8(text@),
{
    Bytes::from(text)
}

/// `Deref for Bytes`: the bytes as a slice.
#[verifier::external_body]
pub(crate) fn bytes_slice(b: &Bytes) -> (s: &[u8])
    ensures
        s@ == content(*b),
{
    b
}

/// `Clone for Bytes`: the same bytes.
#[verifier::external_body]
pub(crate) fn bytes_clone(b: &Bytes) -> (r: Bytes)
    ensures
        content(r) == content(*b),
{
    b.clone()
}

/// `Buf::advance` of `Bytes`: the first bytes are dropped. It panics where there
/// are fewer.
#[verifier::external_body]
pub(crate) fn bytes_advance(b: &mut Bytes, cnt: usize)
    requires
        cnt <= content(*old(b)).len(),
    ensures
        content(*final(b)) == content(*old(b)).skip(cnt as int),
{
    b.advance(cnt)
}

/// `Buf::copy_to_bytes` of `Bytes`: the first bytes are taken out. It panics
/// where there are fewer.
#[verifier::external_body]
pub(crate) fn bytes_copy_to_bytes(b: &mut Bytes, len: usize) -> (r: Bytes)
    requires
        len <= content(*old(b)).len(),
    ensures
        content(r) == content(*old(b)).take(len as int),
        content(*final(b)) == content(*old(b)).skip(len as int),
{
    b.copy_to_bytes(len)
}

/// `BytesMut::with_capacity`: no bytes yet. It panics beyond what can be allocated.
pub assume_specification[ BytesMut::with_capacity ](capacity: usize) -> (b: BytesMut)
    requires
        capacity <= isize::MAX,
    ensures
        content_mut(b) == Seq::<u8>::empty(),
;

/// `BytesMut::extend_from_slice`: the slice comes behind what is there. It panics
/// beyond what can be allocated.
pub assume_specification[ BytesMut::extend_from_slice ](b: &mut BytesMut, extend: &[u8])
    requires
        content_mut(*old(b)).len() + extend@.len() <= isize::MAX,
    ensures
        content_mut(*final(b)) == content_mut(*old(b)) + extend@,
;

/// `BytesMut::freeze`: the same bytes.
pub assume_specification[ BytesMut::freeze ](b: BytesMut) -> (r: Bytes)
    ensures
        content(r) == content_mut(b),
;

} // verus!
