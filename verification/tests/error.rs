use std::mem;

use hyper::error::{Cause, Error, Header, Kind, Link, Parse, TimedOut, User};
use hyper::ffi::error::{hyper_code, hyper_error};

fn assert_send_sync<T: Send + Sync + 'static>() {}

#[test]
fn error_satisfies_send_sync() {
    assert_send_sync::<Error>()
}

#[test]
fn error_size_of() {
    assert_eq!(mem::size_of::<Error>(), mem::size_of::<usize>());
}

#[test]
fn h2_reason_unknown() {
    let closed = Error::new_closed();
    assert_eq!(closed.h2_reason(), h2::Reason::INTERNAL_ERROR);
}

#[test]
fn h2_reason_one_level() {
    let body_err =
        Error::new_user_body(Cause::h2(h2::Error::from(h2::Reason::ENHANCE_YOUR_CALM)));
    assert_eq!(body_err.h2_reason(), h2::Reason::ENHANCE_YOUR_CALM);
}

#[test]
fn h2_reason_nested() {
    let recvd = Error::new_h2(h2::Error::from(h2::Reason::HTTP_1_1_REQUIRED));
    // Suppose a user were proxying the received error
    let svc_err = Error::new_user_service(Cause::error(recvd));
    assert_eq!(svc_err.h2_reason(), h2::Reason::HTTP_1_1_REQUIRED);
}

#[test]
fn timeouts_are_found_in_the_chain() {
    assert!(Error::new_header_timeout().is_timeout());
    let inner = Error::new_body(Cause::timed_out());
    assert!(inner.is_timeout());
    assert!(Error::new_user_service(Cause::error(inner)).is_timeout());
    assert!(!Error::new_user_service(Cause::message("late".to_string())).is_timeout());
    assert_eq!(TimedOut.description(), "operation timed out");
}

#[test]
fn io_errors_keep_their_kind() {
    let io = || std::io::Error::new(std::io::ErrorKind::Other, "reset");
    assert_eq!(*Error::new_io(Cause::io(io())).kind(), Kind::Io);
    assert!(Error::new_shutdown(Cause::io(io())).is_shutdown());
    match Error::new_io(Cause::io(io())).source() {
        Some(Link::Io(e)) => assert_eq!(e.to_string(), "reset"),
        other => panic!("unexpected: {:?}", other),
    }
}

#[test]
fn errors_are_added_behind_an_io_error() {
    let io = std::io::Error::new(std::io::ErrorKind::Other, "broken");
    let err = Error::new_io(Cause::io(io));
    assert!(matches!(err.causes(), [Link::Io(io)] if io.to_string() == "broken"));
    assert!(!err.is_timeout());
    let err = err.and_behind(vec![Link::Message("x".to_string()), Link::TimedOut(TimedOut)]);
    assert!(err.is_timeout());
    assert!(matches!(err.causes(), [Link::Io(_), Link::Message(_), Link::TimedOut(_)]));
    assert_eq!(*err.kind(), Kind::Io);
    assert!(matches!(err.source(), Some(Link::Io(_))));
    assert!(Error::new_closed().causes().is_empty());
}

#[test]
fn each_constructor_has_its_kind_and_text() {
    let all = [
        (Error::new_canceled(), Kind::Canceled, "operation was canceled"),
        (
            Error::new_incomplete(),
            Kind::IncompleteMessage,
            "connection closed before message completed",
        ),
        (Error::new_too_large(), Kind::Parse(Parse::TooLarge), "message head is too large"),
        (
            Error::new_version_h2(),
            Kind::Parse(Parse::VersionH2),
            "invalid HTTP version parsed (found HTTP2 preface)",
        ),
        (
            Error::new_unexpected_message(),
            Kind::UnexpectedMessage,
            "received unexpected message from connection",
        ),
        (Error::new_closed(), Kind::ChannelClosed, "channel closed"),
        (
            Error::new_body_write_aborted(),
            Kind::User(User::BodyWriteAborted),
            "user body write aborted",
        ),
        (
            Error::new_user_header(),
            Kind::User(User::UnexpectedHeader),
            "user sent unexpected header",
        ),
        (Error::new_header_timeout(), Kind::HeaderTimeout, "read header from client timeout"),
        (
            Error::new_user_unsupported_status_code(),
            Kind::User(User::UnsupportedStatusCode),
            "response has 1xx status code, not supported by server",
        ),
        (Error::new_user_no_upgrade(), Kind::User(User::NoUpgrade), "no upgrade available"),
        (
            Error::new_user_manual_upgrade(),
            Kind::User(User::ManualUpgrade),
            "upgrade expected but low level API in use",
        ),
        (
            Error::new_user_invalid_connect(),
            Kind::User(User::InvalidConnectWithBody),
            "user sent CONNECT request with non-zero body",
        ),
        (
            Error::new_user_aborted_by_callback(),
            Kind::User(User::AbortedByCallback),
            "operation aborted by an application callback",
        ),
        (
            Error::new_user_dispatch_gone(),
            Kind::User(User::DispatchGone),
            "dispatch task is gone",
        ),
    ];
    for (err, kind, text) in all {
        assert_eq!(*err.kind(), kind);
        assert_eq!(err.description(), text);
        assert!(err.source().is_none());
    }
}

#[test]
fn texts_of_the_other_kinds() {
    let all = [
        (Kind::Parse(Parse::Method), "invalid HTTP method parsed"),
        (Kind::Parse(Parse::Version), "invalid HTTP version parsed"),
        (Kind::Parse(Parse::Uri), "invalid URI"),
        (Kind::Parse(Parse::UriTooLong), "URI too long"),
        (Kind::Parse(Parse::Header(Header::Token)), "invalid HTTP header parsed"),
        (Kind::Parse(Parse::content_length_invalid()), "invalid content-length parsed"),
        (Kind::Parse(Parse::transfer_encoding_invalid()), "invalid transfer-encoding parsed"),
        (
            Kind::Parse(Parse::transfer_encoding_unexpected()),
            "unexpected transfer-encoding parsed",
        ),
        (Kind::Parse(Parse::Status), "invalid HTTP status-code parsed"),
        (
            Kind::Parse(Parse::Internal),
            "internal error inside Hyper and/or its dependencies, please report",
        ),
        (Kind::Body, "error reading a body from connection"),
        (Kind::BodyWrite, "error writing a body to connection"),
        (Kind::Shutdown, "error shutting down connection"),
        (Kind::Http2, "http2 error"),
        (Kind::Io, "connection error"),
        (Kind::User(User::Body), "error from user's Body stream"),
        (Kind::User(User::Service), "error from user's Service"),
    ];
    for (kind, text) in all {
        assert_eq!(Error::new(kind).description(), text);
    }
}

#[test]
fn errors_are_told_apart() {
    assert!(Error::new_too_large().is_parse());
    assert!(Error::new_too_large().is_parse_too_large());
    assert!(Error::new(Kind::Parse(Parse::UriTooLong)).is_parse_too_large());
    assert!(!Error::new(Kind::Parse(Parse::Uri)).is_parse_too_large());
    assert!(Error::new(Kind::Parse(Parse::Status)).is_parse_status());
    assert!(Error::new_user_no_upgrade().is_user());
    assert!(Error::new_canceled().is_canceled());
    assert!(Error::new_closed().is_closed());
    assert!(Error::new_incomplete().is_incomplete_message());
    assert!(Error::new_body_write_aborted().is_body_write_aborted());
    assert!(!Error::new_closed().is_canceled());
    assert!(!Error::new_closed().is_parse());
    assert!(Error::from(Parse::Uri).is_parse());
}

#[test]
fn outside_parse_errors_are_mapped() {
    assert_eq!(Parse::from(httparse::Error::HeaderName), Parse::Header(Header::Token));
    assert_eq!(Parse::from(httparse::Error::HeaderValue), Parse::Header(Header::Token));
    assert_eq!(Parse::from(httparse::Error::NewLine), Parse::Header(Header::Token));
    assert_eq!(Parse::from(httparse::Error::Token), Parse::Header(Header::Token));
    assert_eq!(Parse::from(httparse::Error::Status), Parse::Status);
    assert_eq!(Parse::from(httparse::Error::TooManyHeaders), Parse::TooLarge);
    assert_eq!(Parse::from(httparse::Error::Version), Parse::Version);
    assert_eq!(Parse::from(http::Method::from_bytes(b"").unwrap_err()), Parse::Method);
    assert_eq!(Parse::from(http::StatusCode::from_u16(1).unwrap_err()), Parse::Status);
    assert_eq!(Parse::from("\n".parse::<http::Uri>().unwrap_err()), Parse::Uri);
    let mut parts = http::uri::Parts::default();
    parts.scheme = Some(http::uri::Scheme::HTTP);
    assert_eq!(Parse::from(http::Uri::from_parts(parts).unwrap_err()), Parse::Uri);
}

#[test]
fn codes_of_errors() {
    let code = |err| hyper_error(err).code();
    assert_eq!(code(Error::new_too_large()), hyper_code::HYPERE_INVALID_PEER_MESSAGE);
    assert_eq!(code(Error::new_incomplete()), hyper_code::HYPERE_UNEXPECTED_EOF);
    assert_eq!(
        code(Error::new_user_aborted_by_callback()),
        hyper_code::HYPERE_ABORTED_BY_CALLBACK
    );
    assert_eq!(code(Error::new_closed()), hyper_code::HYPERE_ERROR);
    assert_eq!(code(Error::new_user_no_upgrade()), hyper_code::HYPERE_ERROR);
}

#[test]
fn errors_are_printed_as_far_as_they_fit() {
    let err = hyper_error(Error::new_closed());
    let mut small = [b'.'; 7];
    assert_eq!(err.print_to(&mut small), 7);
    assert_eq!(&small, b"channel");
    let mut large = [b'.'; 16];
    assert_eq!(err.print_to(&mut large), 14);
    assert_eq!(&large, b"channel closed..");
    assert_eq!(err.print_to(&mut []), 0);
}
