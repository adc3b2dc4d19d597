//! Items of the `h2` crate.

use std::task::{Context, Poll};

use bytes::Bytes;
use h2::ext::Protocol as H2Protocol;
use h2::Error as H2Failure;
use h2::{Reason, RecvStream};
use http::header::HeaderMap;
use vstd::prelude::*;
use vstd::utf8::encode_utf8;

use crate::common::task::Polled;

verus! {

/// `h2::Error`.
#[verifier::external_type_specification]
#[verifier::external_body]
pub struct ExH2Error(H2Failure);

/// `std::io::Error`, which an `h2::Error` may hold.
#[verifier::external_type_specification]
#[verifier::external_body]
pub struct ExIoError(std::io::Error);

/// The HTTP/2 error code that an `h2::Error` holds, if it holds one.
pub uninterp spec fn h2_error_code(e: H2Failure) -> Option<u32>;

/// The I/O error that an `h2::Error` holds, where it holds one.
pub uninterp spec fn h2_error_io(e: H2Failure) -> std::io::Error;

/// Whether an `h2::Error` holds an I/O error.
pub uninterp spec fn h2_error_has_io(e: H2Failure) -> bool;

/// `h2::Reason`, an HTTP/2 error code.
#[verifier::external_type_specification]
#[verifier::external_body]
pub struct ExReason(Reason);

/// The number of an HTTP/2 error code.
pub uninterp spec fn reason_code(r: Reason) -> u32;

/// `From<Reason> for u32`: the number of the code.
#[verifier::external_body]
pub(crate) fn reason_number(r: &Reason) -> (code: u32)
    ensures
        code == reason_code(*r),
{
    u32::from(*r)
}

/// `h2::Error::reason`: the error code that the error holds.
/// An error that holds an I/O error holds no code.
#[verifier::external_body]
pub(crate) fn h2_error_reason(e: &H2Failure) -> (r: Option<Reason>)
    ensures
        r is Some <==> h2_error_code(*e) is Some,
        r is Some ==> h2_error_code(*e) == Some(reason_code(r->0)),
        r is Some ==> !h2_error_has_io(*e),
{
    e.reason()
}

/// `h2::Error::is_io`: whether the error holds an I/O error.
pub assume_specification[ H2Failure::is_io ](e: &H2Failure) -> (r: bool)
    ensures
        r == h2_error_has_io(*e),
;

/// `h2::Error::into_io`: the I/O error, exactly when the error holds one.
pub assume_specification[ H2Failure::into_io ](e: H2Failure) -> (r: Option<std::io::Error>)
    ensures
        r is Some == h2_error_has_io(e),
        r is Some ==> r->0 == h2_error_io(e),
;

/// `h2::Reason::NO_ERROR` has the code 0.
#[verifier::external_body]
pub(crate) fn reason_no_error() -> (r: Reason)
    ensures
        reason_code(r) == 0,
{
    Reason::NO_ERROR
}

/// `h2::Reason::INTERNAL_ERROR` has the code 2.
#[verifier::external_body]
pub(crate) fn reason_internal_error() -> (r: Reason)
    ensures
        reason_code(r) == 2,
{
    Reason::INTERNAL_ERROR
}

/// `h2::Reason::CANCEL` has the code 8.
#[verifier::external_body]
pub(crate) fn reason_cancel() -> (r: Reason)
    ensures
        reason_code(r) == 8,
{
    Reason::CANCEL
}

/// `h2::RecvStream`, the receiving side of an HTTP/2 stream.
#[verifier::external_type_specification]
#[verifier::external_body]
pub struct ExRecvStream(RecvStream);

/// What the polls of a stream for data gave, the first first.
pub uninterp spec fn stream_data_polls(recv: RecvStream) -> Seq<Polled<Bytes, H2Failure>>;

/// What the polls of a stream for trailers gave, the first first.
pub uninterp spec fn stream_trailers_polls(recv: RecvStream) -> Seq<Polled<HeaderMap, H2Failure>>;

/// The numbers of bytes that a stream was asked to let the peer send more, the
/// first first.
pub uninterp spec fn stream_released(recv: RecvStream) -> Seq<usize>;

/// `RecvStream::is_end_stream`: whether the stream has nothing more to give, which
/// depends on the peer.
pub assume_specification[ RecvStream::is_end_stream ](recv: &RecvStream) -> bool;

/// `RecvStream::poll_data`: the next piece of data of the stream. What comes depends
/// on the peer.
#[verifier::external_body]
pub(crate) fn recv_poll_data(recv: &mut RecvStream, cx: &mut Context<'_>) -> (r: Polled<
    Bytes,
    H2Failure,
>)
    ensures
        stream_data_polls(*final(recv)) == stream_data_polls(*old(recv)).push(r),
        stream_trailers_polls(*final(recv)) == stream_trailers_polls(*old(recv)),
        stream_released(*final(recv)) == stream_released(*old(recv)),
{
    match recv.poll_data(cx) {
        Poll::Pending => Polled::Pending,
        Poll::Ready(None) => Polled::End,
        Poll::Ready(Some(Ok(data))) => Polled::Item(data),
        Poll::Ready(Some(Err(err))) => Polled::Failed(err),
    }
}

/// `RecvStream::poll_trailers`: the trailers of the stream, or the end where it
/// has none. What comes depends on the peer.
#[verifier::external_body]
pub(crate) fn recv_poll_trailers(recv: &mut RecvStream, cx: &mut Context<'_>) -> (r: Polled<
    HeaderMap,
    H2Failure,
>)
    ensures
        stream_trailers_polls(*final(recv)) == stream_trailers_polls(*old(recv)).push(r),
        stream_data_polls(*final(recv)) == stream_data_polls(*old(recv)),
        stream_released(*final(recv)) == stream_released(*old(recv)),
{
    match recv.poll_trailers(cx) {
        Poll::Pending => Polled::Pending,
        Poll::Ready(Ok(None)) => Polled::End,
        Poll::Ready(Ok(Some(trailers))) => Polled::Item(trailers),
        Poll::Ready(Err(err)) => Polled::Failed(err),
    }
}

/// `FlowControl::release_capacity`: lets the peer send so many bytes more. A
/// refusal is of no consequence.
#[verifier::external_body]
pub(crate) fn recv_release_capacity(recv: &mut RecvStream, n: usize)
    ensures
        stream_released(*final(recv)) == stream_released(*old(recv)).push(n),
        stream_data_polls(*final(recv)) == stream_data_polls(*old(recv)),
        stream_trailers_polls(*final(recv)) == stream_trailers_polls(*old(recv)),
{
    let _ = recv.flow_control().release_capacity(n);
}

/// `h2::ext::Protocol`.
#[verifier::external_type_specification]
#[verifier::external_body]
pub struct ExProtocol(H2Protocol);

/// The name of a protocol.
pub uninterp spec fn protocol_text(p: H2Protocol) -> Seq<char>;

/// `Protocol::from_static`: the protocol of that name.
#[verifier::external_body]
pub(crate) fn protocol_from_static(value: &'static str) -> (p: H2Protocol)
    ensures
        protocol_text(p) == value@,
{
    H2Protocol::from_static(value)
}

/// `From<&str> for Protocol`: the protocol of that name.
#[verifier::external_body]
pub(crate) fn protocol_from_str(value: &str) -> (p: H2Protocol)
    ensures
        protocol_text(p) == value@,
{
    H2Protocol::from(value)
}

/// `Protocol::as_str`: the name of the protocol.
#[verifier::external_body]
pub(crate) fn protocol_as_str(p: &H2Protocol) -> (s: &str)
    ensures
        s@ == protocol_text(*p),
{
    p.as_str()
}

/// `Clone for Protocol`: the same protocol.
#[verifier::external_body]
pub(crate) fn protocol_clone(p: &H2Protocol) -> (r: H2Protocol)
    ensures
        protocol_text(r) == protocol_text(*p),
{
    p.clone()
}

/// `AsRef<[u8]> for Protocol`: the name of the protocol in UTF-8.
#[verifier::external_body]
pub(crate) fn protocol_as_bytes(p: &H2Protocol) -> (s: &[u8])
    ensures
        s@ == encode_utf8(protocol_text(*p)),
{
    p.as_ref()
}

} // verus!
