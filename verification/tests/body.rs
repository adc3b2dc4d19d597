use std::pin::Pin;
use std::task::{Context, Poll};

use bytes::Bytes;
use http::HeaderMap;
use std::mem;
use tokio_test::task::spawn;

use hyper::body::incoming::{
    chan_data, chan_trailers, given_back, h2_data, h2_trailers, initial_want, want_ready, Activity,
    Frame, Incoming, Sender, SizeHint,
};
use hyper::body::DecodedLength;
use hyper::common::task::Polled;
use hyper::error::{Error, Kind, Link, Parse};

fn poll_frame(rx: &mut Incoming) -> (Polled<Frame, Error>, Activity) {
    spawn(std::future::pending::<()>()).enter(|cx, _| rx.poll_frame(cx))
}

fn poll_ready(tx: &mut Sender) -> Polled<(), Error> {
    spawn(std::future::pending::<()>()).enter(|cx, _| tx.poll_ready(cx))
}

#[test]
fn sub_if_known() {
    let mut len = DecodedLength::new(30);
    len.sub_if(20);

    assert_eq!(len.0, 10);
}

#[test]
fn sub_if_chunked() {
    let mut len = DecodedLength::chunked();
    len.sub_if(20);

    assert_eq!(len, DecodedLength::chunked());
}

#[test]
fn lengths_known_and_unknown() {
    assert_eq!(DecodedLength::from(Some(7)).into_opt(), Some(7));
    assert_eq!(DecodedLength::from(None), DecodedLength::chunked());
    assert_eq!(DecodedLength::from(Some(u64::MAX)), DecodedLength::chunked());
    assert_eq!(DecodedLength::checked_new(u64::MAX - 2), Ok(DecodedLength::new(u64::MAX - 2)));
    assert_eq!(DecodedLength::checked_new(u64::MAX - 1), Err(Parse::TooLarge));
    assert!(!DecodedLength::close_delimited().is_exact());
    assert!(DecodedLength::zero().is_exact());
    assert_eq!(DecodedLength::new(9).danger_len(), 9);
    assert_eq!(DecodedLength::close_delimited().into_opt(), None);
}

#[test]
fn lengths_count_down_in_steps() {
    let mut steps = DecodedLength::new(100);
    steps.sub_if(30);
    steps.sub_if(12);
    let mut once = DecodedLength::new(100);
    once.sub_if(42);
    assert_eq!(steps, once);
    assert_ne!(DecodedLength::chunked(), DecodedLength::close_delimited());
}

fn assert_send_sync<T: Send + Sync>() {}

#[test]
fn bodies_cross_threads() {
    assert_send_sync::<Incoming>();
}

#[test]
fn lengths_in_words() {
    assert_eq!(DecodedLength::close_delimited().text(), "close-delimited");
    assert_eq!(DecodedLength::chunked().text(), "chunked encoding");
    assert_eq!(DecodedLength::zero().text(), "empty");
    assert_eq!(DecodedLength::new(1024).text(), "content-length (1024 bytes)");
    assert_eq!(DecodedLength::close_delimited().debug_text(), "CLOSE_DELIMITED");
    assert_eq!(DecodedLength::chunked().debug_text(), "CHUNKED");
    assert_eq!(DecodedLength::new(0).debug_text(), "DecodedLength(0)");
}

#[test]
fn test_size_of() {
    let body_size = mem::size_of::<Incoming>();
    let body_expected_size = mem::size_of::<u64>() * 5;
    assert!(
        body_size <= body_expected_size,
        "Body size = {} <= {}",
        body_size,
        body_expected_size,
    );

    assert_eq!(
        mem::size_of::<Sender>(),
        mem::size_of::<usize>() * 5,
        "Sender"
    );

    assert_eq!(
        mem::size_of::<Sender>(),
        mem::size_of::<Option<Sender>>(),
        "Option<Sender>"
    );
}

fn eq(body: Incoming, b: http_body::SizeHint, note: &str) {
    let a = body.size_hint();
    assert_eq!(a.lower, b.lower(), "lower for {:?}", note);
    assert_eq!(a.upper, b.upper(), "upper for {:?}", note);
}

#[test]
fn size_hint() {
    eq(Incoming::empty(), http_body::SizeHint::with_exact(0), "empty");

    eq(Incoming::channel().1, http_body::SizeHint::new(), "channel");

    eq(
        Incoming::new_channel(DecodedLength::new(4), /*wanter =*/ false).1,
        http_body::SizeHint::with_exact(4),
        "channel with length",
    );
}

#[test]
fn size_hint_of_ffi_body() {
    assert_eq!(Incoming::ffi().size_hint(), SizeHint { lower: 0, upper: None });
}

#[test]
fn channel_abort() {
    let (tx, mut rx) = Incoming::channel();

    tx.abort();

    match poll_frame(&mut rx).0 {
        Polled::Failed(err) => assert!(err.is_body_write_aborted(), "{:?}", err),
        other => panic!("unexpected: {:?}", other),
    }
}

#[test]
fn channel_abort_when_buffer_is_full() {
    let (mut tx, mut rx) = Incoming::channel();

    tx.try_send_data("chunk 1".into()).expect("send 1");
    // buffer is full, but can still send abort
    tx.abort();

    match poll_frame(&mut rx).0 {
        Polled::Item(Frame::Data(chunk1)) => assert_eq!(chunk1, "chunk 1"),
        other => panic!("unexpected: {:?}", other),
    }

    match poll_frame(&mut rx).0 {
        Polled::Failed(err) => assert!(err.is_body_write_aborted(), "{:?}", err),
        other => panic!("unexpected: {:?}", other),
    }
}

#[test]
fn channel_buffers_one() {
    let (mut tx, _rx) = Incoming::channel();

    tx.try_send_data("chunk 1".into()).expect("send 1");

    // buffer is now full
    let chunk2 = tx.try_send_data("chunk 2".into()).expect_err("send 2");
    assert_eq!(chunk2, "chunk 2");
}

#[test]
fn channel_empty() {
    let (_, mut rx) = Incoming::channel();

    assert!(matches!(poll_frame(&mut rx).0, Polled::End));
}

#[test]
fn channel_ready() {
    let (mut tx, _rx) = Incoming::new_channel(DecodedLength::chunked(), /*wanter = */ false);

    assert!(matches!(poll_ready(&mut tx), Polled::Item(())), "tx is ready immediately");
}

#[test]
fn channel_wanter() {
    let (mut tx, mut rx) = Incoming::new_channel(DecodedLength::chunked(), /*wanter = */ true);

    let mut tx_ready = spawn(std::future::pending::<()>());
    let mut rx_data = spawn(std::future::pending::<()>());

    assert!(
        matches!(tx_ready.enter(|cx, _| tx.poll_ready(cx)), Polled::Pending),
        "tx isn't ready before rx has been polled"
    );

    assert!(
        matches!(rx_data.enter(|cx, _| rx.poll_frame(cx)).0, Polled::Pending),
        "poll rx.data"
    );
    assert!(tx_ready.is_woken(), "rx poll wakes tx");

    assert!(
        matches!(tx_ready.enter(|cx, _| tx.poll_ready(cx)), Polled::Item(())),
        "tx is ready after rx has been polled"
    );
}

#[test]
fn channel_notices_closure() {
    let (mut tx, mut rx) = Incoming::new_channel(DecodedLength::chunked(), /*wanter = */ true);

    let mut tx_ready = spawn(std::future::pending::<()>());

    assert!(
        matches!(tx_ready.enter(|cx, _| tx.poll_ready(cx)), Polled::Pending),
        "tx isn't ready before rx has been polled"
    );

    rx.close();
    drop(rx);
    assert!(tx_ready.is_woken(), "dropping rx wakes tx");

    match tx_ready.enter(|cx, _| tx.poll_ready(cx)) {
        Polled::Failed(ref e) if e.is_closed() => (),
        unexpected => panic!("tx poll ready unexpected: {:?}", unexpected),
    }
}

#[test]
fn ready_sender_notices_a_dropped_receiver() {
    let (mut tx, rx) = Incoming::channel();
    drop(rx);
    match poll_ready(&mut tx) {
        Polled::Failed(ref e) if e.is_closed() => (),
        unexpected => panic!("unexpected: {:?}", unexpected),
    }
    assert!(tx.send_data(Bytes::from_static(b"x")).unwrap_err().is_closed());
}

#[test]
fn length_counts_down_to_the_end() {
    let (mut tx, mut rx) = Incoming::new_channel(DecodedLength::new(7), false);
    assert!(!rx.is_end_stream());
    tx.try_send_data(Bytes::from_static(b"abcd")).unwrap();
    assert!(matches!(poll_frame(&mut rx).0, Polled::Item(Frame::Data(_))));
    assert_eq!(rx.size_hint(), SizeHint { lower: 3, upper: Some(3) });
    tx.try_send_data(Bytes::from_static(b"efg")).unwrap();
    assert!(matches!(poll_frame(&mut rx).0, Polled::Item(Frame::Data(_))));
    assert!(rx.is_end_stream());
    assert_eq!(rx.size_hint(), SizeHint { lower: 0, upper: Some(0) });
}

#[test]
fn trailers_come_after_the_data_and_once() {
    let (mut tx, mut rx) = Incoming::channel();
    let mut trailers = HeaderMap::new();
    trailers.insert("x-sum", "7".parse().unwrap());
    assert!(tx.try_send_trailers(trailers.clone()).is_ok());
    assert!(tx.try_send_trailers(trailers.clone()).unwrap_err().is_none());
    assert!(tx.send_trailers(trailers.clone()).unwrap_err().is_closed());
    assert!(matches!(poll_frame(&mut rx).0, Polled::Pending));
    drop(tx);
    match poll_frame(&mut rx).0 {
        Polled::Item(Frame::Trailers(t)) => assert_eq!(t, trailers),
        other => panic!("unexpected: {:?}", other),
    }
}

#[test]
fn trailers_come_back_where_nobody_waits() {
    let (mut tx, rx) = Incoming::channel();
    drop(rx);
    let mut trailers = HeaderMap::new();
    trailers.insert("x-sum", "8".parse().unwrap());
    assert_eq!(tx.try_send_trailers(trailers.clone()), Err(Some(trailers)));
}

#[test]
fn channel_rules_on_given_events() {
    let mut len = DecodedLength::new(10);
    assert!(matches!(chan_data(&mut len, Polled::Pending), Some(Polled::Pending)));
    assert!(chan_data(&mut len, Polled::End).is_none());
    assert!(matches!(
        chan_data(&mut len, Polled::Item(Bytes::from_static(b"abc"))),
        Some(Polled::Item(Frame::Data(_)))
    ));
    assert_eq!(len, DecodedLength::new(7));
    assert!(matches!(
        chan_data(&mut len, Polled::Failed(Error::new_closed())),
        Some(Polled::Failed(_))
    ));
    assert!(matches!(chan_trailers(Polled::End), Polled::End));
    assert!(matches!(chan_trailers(Polled::Pending), Polled::Pending));
    assert!(matches!(
        chan_trailers(Polled::Item(HeaderMap::new())),
        Polled::Item(Frame::Trailers(_))
    ));
}

#[test]
fn stream_errors_end_or_fail_the_body() {
    let mut len = DecodedLength::chunked();
    for reason in [h2::Reason::NO_ERROR, h2::Reason::CANCEL] {
        assert!(matches!(h2_data(&mut len, Polled::Failed(reason.into())), Some(Polled::End)));
    }
    match h2_data(&mut len, Polled::Failed(h2::Reason::PROTOCOL_ERROR.into())) {
        Some(Polled::Failed(e)) => {
            assert_eq!(*e.kind(), Kind::Body);
            assert_eq!(e.h2_reason(), h2::Reason::PROTOCOL_ERROR);
        }
        other => panic!("unexpected: {:?}", other),
    }
    assert!(matches!(
        h2_data(&mut len, Polled::Item(Bytes::from_static(b"xy"))),
        Some(Polled::Item(Frame::Data(_)))
    ));
    assert_eq!(len, DecodedLength::chunked());
    let (polled, activity) = h2_trailers(Polled::Failed(h2::Reason::PROTOCOL_ERROR.into()));
    match polled {
        Polled::Failed(e) => assert_eq!(*e.kind(), Kind::Http2),
        other => panic!("unexpected: {:?}", other),
    }
    assert_eq!(activity, Activity::Idle);
    let (polled, activity) = h2_trailers(Polled::End);
    assert!(matches!(polled, Polled::End));
    assert_eq!(activity, Activity::NonData);
}

#[test]
fn wants_of_a_receiver() {
    assert_eq!(initial_want(true), 1);
    assert_eq!(initial_want(false), 2);
    assert!(matches!(want_ready(2), Polled::Item(())));
    assert!(matches!(want_ready(1), Polled::Pending));
    match want_ready(0) {
        Polled::Failed(e) => assert!(e.is_closed()),
        other => panic!("unexpected: {:?}", other),
    }
}

#[test]
fn unsent_data_is_given_back() {
    assert_eq!(given_back(Ok(())), Ok(()));
    assert_eq!(given_back(Err(Ok(Bytes::from_static(b"x")))), Err(Bytes::from_static(b"x")));
}

#[test]
fn overlong_chunks_wrap_the_length() {
    let (mut tx, mut rx) = Incoming::new_channel(DecodedLength::new(1), false);
    tx.try_send_data(Bytes::from_static(b"abcd")).unwrap();
    assert!(matches!(poll_frame(&mut rx).0, Polled::Item(Frame::Data(_))));
    assert_eq!(rx.size_hint().lower, 1u64.wrapping_sub(4));
}

#[test]
fn stream_length_at_its_end() {
    assert_eq!(Incoming::h2_length(DecodedLength::chunked(), true), DecodedLength::zero());
    assert_eq!(Incoming::h2_length(DecodedLength::chunked(), false), DecodedLength::chunked());
    assert_eq!(Incoming::h2_length(DecodedLength::new(5), true), DecodedLength::new(5));
}

/// A transport that gives what was put into it, and takes what is written.
struct Replay {
    bytes: Vec<u8>,
    read: usize,
}

impl tokio::io::AsyncRead for Replay {
    fn poll_read(
        mut self: Pin<&mut Self>,
        _cx: &mut Context<'_>,
        buf: &mut tokio::io::ReadBuf<'_>,
    ) -> Poll<std::io::Result<()>> {
        if self.read == self.bytes.len() {
            return Poll::Pending;
        }
        let n = buf.remaining().min(self.bytes.len() - self.read);
        buf.put_slice(&self.bytes[self.read..self.read + n]);
        self.read += n;
        Poll::Ready(Ok(()))
    }
}

impl tokio::io::AsyncWrite for Replay {
    fn poll_write(
        self: Pin<&mut Self>,
        _cx: &mut Context<'_>,
        buf: &[u8],
    ) -> Poll<std::io::Result<usize>> {
        Poll::Ready(Ok(buf.len()))
    }

    fn poll_flush(self: Pin<&mut Self>, _cx: &mut Context<'_>) -> Poll<std::io::Result<()>> {
        Poll::Ready(Ok(()))
    }

    fn poll_shutdown(self: Pin<&mut Self>, _cx: &mut Context<'_>) -> Poll<std::io::Result<()>> {
        Poll::Ready(Ok(()))
    }
}

fn frame(kind: u8, flags: u8, stream: u8, payload: &[u8]) -> Vec<u8> {
    let mut frame = vec![0, 0, payload.len() as u8, kind, flags, 0, 0, 0, stream];
    frame.extend_from_slice(payload);
    frame
}

/// A server that was sent a request with a body, and the stream of that body.
fn stream_of(
    head_flags: u8,
    frames: &[Vec<u8>],
) -> (h2::server::Connection<Replay, Bytes>, h2::RecvStream) {
    let mut bytes = b"PRI * HTTP/2.0\r\n\r\nSM\r\n\r\n".to_vec();
    bytes.extend(frame(4, 0, 0, &[]));
    bytes.extend(frame(1, head_flags, 1, &[0x83, 0x86, 0x84, 0x41, 1, b'a']));
    for f in frames {
        bytes.extend_from_slice(f);
    }
    let mut handshake = spawn(h2::server::handshake(Replay { bytes, read: 0 }));
    let mut conn = match handshake.poll() {
        Poll::Ready(conn) => conn.unwrap(),
        Poll::Pending => panic!("the preface is there"),
    };
    let mut task = spawn(std::future::pending::<()>());
    let recv = match task.enter(|cx, _| conn.poll_accept(cx)) {
        Poll::Ready(Some(Ok((request, _)))) => request.into_body(),
        _ => panic!("a request is there"),
    };
    assert!(task.enter(|cx, _| conn.poll_accept(cx)).is_pending());
    (conn, recv)
}

#[test]
fn streams_give_their_data_and_then_the_trailers() {
    let (_conn, recv) = stream_of(4, &[
        frame(0, 0, 1, b"abc"),
        frame(0, 0, 1, b"defg"),
        frame(1, 5, 1, &[0, 5, b'x', b'-', b's', b'u', b'm', 1, b'7']),
    ]);
    let mut body = Incoming::h2(recv, DecodedLength::new(7));
    assert!(!body.is_end_stream());
    for (piece, rest) in [("abc", 4), ("defg", 0)] {
        let (polled, activity) = poll_frame(&mut body);
        match polled {
            Polled::Item(Frame::Data(data)) => assert_eq!(data, piece),
            other => panic!("unexpected: {:?}", other),
        }
        assert_eq!(activity, Activity::Data(piece.len()));
        assert_eq!(body.size_hint(), SizeHint { lower: rest, upper: Some(rest) });
    }
    let (polled, activity) = poll_frame(&mut body);
    match polled {
        Polled::Item(Frame::Trailers(trailers)) => assert_eq!(trailers["x-sum"], "7"),
        other => panic!("unexpected: {:?}", other),
    }
    assert_eq!(activity, Activity::NonData);
    assert!(matches!(poll_frame(&mut body), (Polled::End, Activity::NonData)));
    assert!(body.is_end_stream());
}

#[test]
fn streams_let_the_peer_send_as_much_again() {
    let (_conn, mut recv) = stream_of(4, &[frame(0, 0, 1, b"abc"), frame(0, 0, 1, b"defg")]);
    assert_eq!(recv.flow_control().used_capacity(), 7);
    let mut flow = recv.flow_control().clone();
    let mut body = Incoming::h2(recv, DecodedLength::chunked());
    poll_frame(&mut body);
    assert_eq!(flow.used_capacity(), 4);
    poll_frame(&mut body);
    assert_eq!(flow.used_capacity(), 0);
    assert!(flow.release_capacity(1).is_err());
    assert!(matches!(poll_frame(&mut body), (Polled::Pending, Activity::Idle)));
}

#[test]
fn reset_streams_end_or_fail() {
    let (_conn, recv) = stream_of(4, &[frame(3, 0, 1, &[0, 0, 0, 8])]);
    let mut body = Incoming::h2(recv, DecodedLength::chunked());
    assert!(matches!(poll_frame(&mut body), (Polled::End, Activity::Idle)));
    let (_conn, recv) = stream_of(4, &[frame(3, 0, 1, &[0, 0, 0, 1])]);
    let mut body = Incoming::h2(recv, DecodedLength::chunked());
    match poll_frame(&mut body).0 {
        Polled::Failed(e) => {
            assert_eq!(*e.kind(), Kind::Body);
            assert_eq!(e.h2_reason(), h2::Reason::PROTOCOL_ERROR);
        }
        other => panic!("unexpected: {:?}", other),
    }
}

#[test]
fn ended_streams_without_a_length_are_empty() {
    let (_conn, recv) = stream_of(5, &[]);
    assert!(recv.is_end_stream());
    let body = Incoming::h2(recv, DecodedLength::chunked());
    assert_eq!(body.size_hint(), SizeHint { lower: 0, upper: Some(0) });
}

#[test]
fn channels_give_their_data_and_then_the_trailers() {
    let (mut tx, mut rx) = Incoming::channel();
    for piece in ["one", "two", "three"] {
        tx.try_send_data(Bytes::from_static(piece.as_bytes())).unwrap();
        match poll_frame(&mut rx).0 {
            Polled::Item(Frame::Data(data)) => assert_eq!(data, piece),
            other => panic!("unexpected: {:?}", other),
        }
    }
    tx.send_data(Bytes::from_static(b"four")).unwrap();
    tx.send_trailers(HeaderMap::new()).unwrap();
    drop(tx);
    assert!(matches!(poll_frame(&mut rx).0, Polled::Item(Frame::Data(_))));
    assert!(matches!(poll_frame(&mut rx).0, Polled::Item(Frame::Trailers(_))));
    assert!(matches!(poll_frame(&mut rx).0, Polled::End));
}

#[test]
fn what_is_left_of_a_length_follows_the_data() {
    let (mut tx, mut rx) = Incoming::new_channel(DecodedLength::new(9), false);
    let mut left = 9;
    for piece in ["ab", "", "cdef"] {
        tx.send_data(Bytes::from_static(piece.as_bytes())).unwrap();
        match poll_frame(&mut rx).0 {
            Polled::Item(Frame::Data(data)) => assert_eq!(data, piece),
            other => panic!("unexpected: {:?}", other),
        }
        left -= piece.len() as u64;
        assert_eq!(rx.size_hint(), SizeHint { lower: left, upper: Some(left) });
    }
    drop(tx);
    assert!(matches!(poll_frame(&mut rx).0, Polled::End));
    assert_eq!(rx.size_hint(), SizeHint { lower: 3, upper: Some(3) });
}

#[test]
fn a_replaced_channel_is_closed() {
    let (tx, mut rx) = Incoming::channel();
    rx.as_ffi_mut().userdata = 1;
    assert_eq!(tx.debug_text(), "Sender(Closed)");
}

#[test]
fn bodies_for_a_programmer() {
    let (tx, mut rx) = Incoming::channel();
    assert_eq!(Incoming::empty().debug_text(), "Body(Empty)");
    assert_eq!(rx.debug_text(), "Body(Streaming)");
    assert_eq!(tx.debug_text(), "Sender(Open)");
    rx.close();
    assert_eq!(tx.debug_text(), "Sender(Closed)");
}

#[test]
fn empty_and_ffi_bodies() {
    let mut empty = Incoming::empty();
    assert!(empty.is_end_stream());
    assert!(matches!(poll_frame(&mut empty).0, Polled::End));
    let mut ffi = Incoming::ffi();
    assert!(!ffi.is_end_stream());
    assert!(matches!(poll_frame(&mut ffi).0, Polled::End));
    let mut other = Incoming::channel().1;
    other.as_ffi_mut().userdata = 7;
    assert_eq!(other.as_ffi_mut().userdata, 7);
}

#[test]
fn failures_keep_their_cause() {
    let err = Error::new_body(hyper::error::Cause::message("broken".to_string()));
    match err.source() {
        Some(Link::Message(text)) => assert_eq!(text, "broken"),
        other => panic!("unexpected: {:?}", other),
    }
}
