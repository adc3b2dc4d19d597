use bytes::Bytes;
use http::header::{HeaderMap, HeaderName};
use http::Request;
use std::task::Context;
use tokio_test::task::spawn;

use hyper::body::{Frame, Incoming};
use hyper::common::task::Polled;
use hyper::error::{Error, Kind, Link, User};
use hyper::ext::{HeaderCaseMap, OriginalHeaderOrder, ReasonPhrase};
use hyper::ffi::body::{
    hyper_body, hyper_buf, user_data, Answers, DataFunc, DataStep, ForeachStep, UserBody,
    HYPER_ITER_BREAK, HYPER_ITER_CONTINUE,
};
use hyper::ffi::client::{hyper_clientconn_options, ConnSetup, Tx};
use hyper::ffi::error::hyper_code;
use hyper::ffi::http_types::{hyper_headers, hyper_request, hyper_response, Extensions};
use hyper::ffi::io::{io_error_text, io_noop, io_outcome, HYPER_IO_ERROR, HYPER_IO_PENDING};
use hyper::ffi::task::{
    hyper_context, hyper_task, hyper_task_return_type, ExecStep, IntoDynTaskType, SpawnQueue,
    TaskValue, HYPER_POLL_ERROR, HYPER_POLL_PENDING, HYPER_POLL_READY,
};

fn concat(headers: &hyper_headers) -> Vec<u8> {
    let mut vec = Vec::<u8>::new();
    for (name, value) in headers.pairs() {
        vec.extend(name);
        vec.extend(b": ");
        vec.extend(value);
        vec.extend(b"\r\n");
    }
    vec
}

#[test]
fn test_headers_foreach_cases_preserved() {
    let mut headers = hyper_headers::default();

    let name1 = b"Set-CookiE";
    let value1 = b"a=b";
    headers.add(name1, value1);

    let name2 = b"SET-COOKIE";
    let value2 = b"c=d";
    headers.add(name2, value2);

    assert_eq!(concat(&headers), b"Set-CookiE: a=b\r\nSET-COOKIE: c=d\r\n");
}

#[test]
fn test_headers_foreach_order_preserved() {
    let mut headers = hyper_headers::default();

    let name1 = b"Set-CookiE";
    let value1 = b"a=b";
    headers.add(name1, value1);

    let name2 = b"Content-Encoding";
    let value2 = b"gzip";
    headers.add(name2, value2);

    let name3 = b"SET-COOKIE";
    let value3 = b"c=d";
    headers.add(name3, value3);

    assert_eq!(
        concat(&headers),
        b"Set-CookiE: a=b\r\nContent-Encoding: gzip\r\nSET-COOKIE: c=d\r\n"
    );
}

#[test]
fn headers_are_set_in_place() {
    let mut headers = hyper_headers::default();
    assert_eq!(headers.set(b"Host", b"a"), hyper_code::HYPERE_OK);
    assert_eq!(headers.add(b"X", b"1"), hyper_code::HYPERE_OK);
    assert_eq!(headers.set(b"hOST", b"b"), hyper_code::HYPERE_OK);
    assert_eq!(concat(&headers), b"hOST: b\r\nX: 1\r\n");
}

#[test]
fn every_header_is_listed_after_a_set() {
    let mut headers = hyper_headers::default();
    headers.add(b"A", b"1");
    headers.add(b"A", b"2");
    headers.set(b"A", b"3");
    headers.add(b"B", b"4");
    assert_eq!(concat(&headers), b"A: 3\r\nB: 4\r\n");
    headers.add(b"a", b"5");
    headers.set(b"C", b"6");
    // The entry of the second `A`, which was replaced, stands for the new one.
    assert_eq!(concat(&headers), b"A: 3\r\na: 5\r\nB: 4\r\nC: 6\r\n");
}

#[test]
fn headers_whose_order_is_not_known_stay_listed() {
    let mut res = response(200);
    res.headers.insert("a", "1".parse().unwrap());
    res.headers.append("a", "2".parse().unwrap());
    let mut res = hyper_response::wrap(res);
    res.headers_mut().add(b"B", b"3");
    let mut lines: Vec<Vec<u8>> =
        concat(res.headers_mut()).split(|b| *b == b'\n').map(|l| l.to_vec()).collect();
    lines.sort();
    let expected: Vec<Vec<u8>> =
        ["", "B: 3\r", "a: 1\r", "a: 2\r"].iter().map(|l| l.as_bytes().to_vec()).collect();
    assert_eq!(lines, expected);
}

#[test]
fn invalid_headers_are_refused() {
    let mut headers = hyper_headers::default();
    assert_eq!(headers.add(b"", b"x"), hyper_code::HYPERE_INVALID_ARG);
    assert_eq!(headers.add(b"a b", b"x"), hyper_code::HYPERE_INVALID_ARG);
    assert_eq!(headers.add(b"a", b"x\n"), hyper_code::HYPERE_INVALID_ARG);
    assert_eq!(headers.set(b"a:", b"x"), hyper_code::HYPERE_INVALID_ARG);
    assert_eq!(headers.set(b"a", b"\x7f"), hyper_code::HYPERE_INVALID_ARG);
    assert!(headers.pairs().is_empty());
    assert_eq!(headers.add(b"a", b"\xff\t"), hyper_code::HYPERE_OK);
}

#[test]
fn every_header_name_byte_is_judged() {
    for b in 0..=255u8 {
        let mut headers = hyper_headers::default();
        let token = b.is_ascii_alphanumeric() || b"!#$%&'*+-.^_`|~".contains(&b);
        let expected = if token { hyper_code::HYPERE_OK } else { hyper_code::HYPERE_INVALID_ARG };
        assert_eq!(headers.add(&[b], b"v"), expected, "{}", b);
        let mut req = hyper_request::new();
        assert_eq!(req.set_method(&[b]), expected, "{}", b);
    }
    let mut headers = hyper_headers::default();
    assert_eq!(headers.add(&[b'a'; 65535], b"v"), hyper_code::HYPERE_OK);
    assert_eq!(headers.add(&[b'a'; 65536], b"v"), hyper_code::HYPERE_INVALID_ARG);
}

#[test]
fn headers_without_an_order_go_by_name() {
    let mut map = HeaderMap::new();
    map.append("a", "1".parse().unwrap());
    map.append("b", "2".parse().unwrap());
    map.append("a", "3".parse().unwrap());
    let mut casing = HeaderCaseMap::default();
    casing.append(HeaderName::from_static("a"), Bytes::from_static(b"A"));
    let headers = hyper_headers {
        headers: map,
        orig_casing: casing,
        orig_order: OriginalHeaderOrder::default(),
    };
    let mut pairs = headers.pairs();
    pairs.sort();
    let expected: Vec<(Vec<u8>, Vec<u8>)> = [("A", "1"), ("a", "3"), ("b", "2")]
        .iter()
        .map(|(n, v)| (n.as_bytes().to_vec(), v.as_bytes().to_vec()))
        .collect();
    assert_eq!(pairs, expected);
}

#[test]
fn requests_are_built() {
    let mut req = hyper_request::new();
    assert_eq!(req.method, http::Method::GET);
    assert_eq!(req.uri, "/");
    assert_eq!(req.version, http::Version::HTTP_11);
    assert_eq!(req.set_method(b"POST"), hyper_code::HYPERE_OK);
    assert_eq!(req.set_method(b"P ST"), hyper_code::HYPERE_INVALID_ARG);
    assert_eq!(req.method, http::Method::POST);
    assert_eq!(req.set_uri(b"http://hyper.rs/guides?x=1"), hyper_code::HYPERE_OK);
    assert_eq!(req.set_uri(b"\n"), hyper_code::HYPERE_INVALID_ARG);
    assert_eq!(req.uri, "http://hyper.rs/guides?x=1");
    assert_eq!(
        req.set_uri_parts(Some(b"https"), Some(b"a.example"), Some(b"/p?q")),
        hyper_code::HYPERE_OK
    );
    assert_eq!(req.uri, "https://a.example/p?q");
    assert_eq!(req.set_uri_parts(None, None, Some(b"/only")), hyper_code::HYPERE_OK);
    assert_eq!(req.uri, "/only");
    assert_eq!(
        req.set_uri_parts(Some(b"https"), None, Some(b"/p")),
        hyper_code::HYPERE_INVALID_ARG
    );
    assert_eq!(req.uri, "/only");
    assert_eq!(req.set_body(hyper_body::new()), hyper_code::HYPERE_OK);
    assert!(!req.body.is_end_stream());
}

#[test]
fn versions_are_mapped() {
    let mut req = hyper_request::new();
    for (given, version, shown) in [
        (10, http::Version::HTTP_10, 10),
        (11, http::Version::HTTP_11, 11),
        (20, http::Version::HTTP_2, 20),
        (0, http::Version::HTTP_11, 11),
    ] {
        assert_eq!(req.set_version(given), hyper_code::HYPERE_OK);
        assert_eq!(req.version, version);
        let mut resp = response(200);
        resp.version = req.version;
        assert_eq!(resp.version(), shown);
    }
    assert_eq!(req.set_version(9), hyper_code::HYPERE_INVALID_ARG);
    assert_eq!(req.version, http::Version::HTTP_11);
    let mut resp = response(200);
    resp.version = http::Version::HTTP_09;
    assert_eq!(resp.version(), 0);
    resp.version = http::Version::HTTP_3;
    assert_eq!(resp.version(), 0);
}

fn response(status: u16) -> hyper_response {
    hyper_response {
        status: http::StatusCode::from_u16(status).unwrap(),
        version: http::Version::HTTP_11,
        headers: HeaderMap::new(),
        extensions: Extensions::new(),
        body: Incoming::empty(),
    }
}

#[test]
fn requests_are_finalized() {
    let mut req = hyper_request::new();
    req.finalize_request();
    assert!(req.extensions.casing.is_none());
    req.headers_mut().add(b"Host", b"x");
    req.headers_mut().add(b"HOST", b"y");
    req.finalize_request();
    assert!(req.extensions.headers.is_none());
    assert_eq!(req.headers.get_all("host").iter().collect::<Vec<_>>(), vec!["x", "y"]);
    let host = HeaderName::from_static("host");
    assert_eq!(req.extensions.casing.unwrap().get_all(&host), vec!["Host", "HOST"]);
    assert_eq!(req.extensions.order.unwrap().get_in_order().len(), 2);
}

#[test]
fn responses_are_wrapped() {
    let mut resp = response(404);
    resp.headers.insert("a", "1".parse().unwrap());
    let mut resp = hyper_response::wrap(resp);
    assert!(resp.headers.is_empty());
    assert_eq!(resp.status(), 404);
    assert_eq!(resp.reason_phrase(), b"Not Found");
    assert_eq!(concat(resp.headers_mut()), b"a: 1\r\n");
    let body = resp.take_body();
    assert!(body.0.is_end_stream());

    let mut resp = response(200);
    resp.extensions.reason = Some(ReasonPhrase::from_static(b"Awesome"));
    let mut casing = HeaderCaseMap::default();
    casing.append(HeaderName::from_static("a"), Bytes::from_static(b"A"));
    resp.extensions.casing = Some(casing);
    let mut order = OriginalHeaderOrder::default();
    order.append(HeaderName::from_static("a"));
    resp.extensions.order = Some(order);
    resp.headers.insert("a", "1".parse().unwrap());
    let mut resp = hyper_response::wrap(resp);
    assert_eq!(resp.reason_phrase(), b"Awesome");
    assert_eq!(concat(resp.headers_mut()), b"A: 1\r\n");
    assert!(resp.extensions.casing.is_none() && resp.extensions.order.is_none());

    assert_eq!(response(299).reason_phrase(), b"");
}

#[test]
fn headers_are_the_same_on_the_other_side() {
    let mut req = hyper_request::new();
    req.headers_mut().add(b"B-b", b"1");
    req.headers_mut().add(b"A-a", b"2");
    req.headers_mut().add(b"B-B", b"3");
    let copy = req.headers_mut().clone();
    req.finalize_request();
    let mut resp = response(200);
    resp.headers = req.headers;
    resp.extensions = req.extensions;
    let mut resp = hyper_response::wrap(resp);
    assert_eq!(resp.headers_mut().pairs(), copy.pairs());
    assert_eq!(concat(&copy), b"B-b: 1\r\nA-a: 2\r\nB-B: 3\r\n");
}

#[test]
fn user_data_codes() {
    assert!(matches!(user_data(HYPER_POLL_READY, None), Polled::End));
    match user_data(HYPER_POLL_READY, Some(hyper_buf::copy(b"abc"))) {
        Polled::Item(Frame::Data(data)) => assert_eq!(data, "abc"),
        other => panic!("unexpected: {:?}", other),
    }
    assert!(matches!(user_data(HYPER_POLL_PENDING, None), Polled::Pending));
    match user_data(HYPER_POLL_ERROR, None) {
        Polled::Failed(e) => assert!(e.is_body_write_aborted()),
        other => panic!("unexpected: {:?}", other),
    }
    match user_data(-7, None) {
        Polled::Failed(e) => {
            assert_eq!(*e.kind(), Kind::BodyWrite);
            match e.source() {
                Some(Link::Message(text)) => {
                    assert_eq!(text, "unexpected hyper_body_data_func return code -7")
                }
                other => panic!("unexpected: {:?}", other),
            }
        }
        other => panic!("unexpected: {:?}", other),
    }
}

/// Answers with its address, and how often it was asked.
struct Echo(u32);

impl DataFunc for Echo {
    fn answers(&self) -> Answers {
        unreachable!("the answers are not kept")
    }

    fn call(&mut self, userdata: usize, _cx: &mut Context<'_>) -> (i32, Option<hyper_buf>) {
        self.0 += 1;
        (HYPER_POLL_READY, Some(hyper_buf::copy(format!("{}-{}", userdata, self.0).as_bytes())))
    }
}

#[test]
fn application_provides_a_body() {
    let mut body = hyper_body::new();
    body.0.as_ffi_mut().userdata = 77;
    body.0.as_ffi_mut().data_func = Some(Box::new(Echo(0)));
    for expected in ["77-1", "77-2", "77-3"] {
        match spawn(std::future::pending::<()>()).enter(|cx, _| body.0.poll_frame(cx)).0 {
            Polled::Item(Frame::Data(data)) => assert_eq!(data, expected),
            other => panic!("unexpected: {:?}", other),
        }
    }
    let mut plain = UserBody::new();
    assert!(matches!(
        spawn(std::future::pending::<()>()).enter(|cx, _| plain.poll_data(cx)),
        Polled::End
    ));
}

#[test]
fn a_replaced_body_is_closed() {
    let (tx, rx) = hyper::body::Incoming::channel();
    let mut req = hyper_request::new();
    assert_eq!(req.set_body(hyper_body(rx)), hyper_code::HYPERE_OK);
    assert_eq!(tx.debug_text(), "Sender(Open)");
    assert_eq!(req.set_body(hyper_body::new()), hyper_code::HYPERE_OK);
    assert_eq!(tx.debug_text(), "Sender(Closed)");
}

#[test]
fn steps_of_the_data_task() {
    assert!(matches!(hyper_body::data_step(Polled::Pending), DataStep::Wait));
    assert!(matches!(hyper_body::data_step(Polled::End), DataStep::Finished(Ok(None))));
    match hyper_body::data_step(Polled::Item(Frame::Data(Bytes::from_static(b"x")))) {
        DataStep::Finished(Ok(Some(buf))) => {
            assert_eq!(buf.as_slice(), b"x");
            assert_eq!(buf.len(), 1);
        }
        _ => panic!("a buffer was expected"),
    }
    assert!(matches!(
        hyper_body::data_step(Polled::Item(Frame::Trailers(HeaderMap::new()))),
        DataStep::Again
    ));
    assert!(matches!(
        hyper_body::data_step(Polled::Failed(Error::new_closed())),
        DataStep::Finished(Err(_))
    ));
}

#[test]
fn steps_of_the_foreach_task() {
    assert!(matches!(hyper_body::foreach_step(Polled::Pending), ForeachStep::Wait));
    assert!(matches!(hyper_body::foreach_step(Polled::End), ForeachStep::Finished(Ok(()))));
    assert!(matches!(
        hyper_body::foreach_step(Polled::Item(Frame::Data(Bytes::from_static(b"x")))),
        ForeachStep::Call(_)
    ));
    assert!(matches!(
        hyper_body::foreach_step(Polled::Item(Frame::Trailers(HeaderMap::new()))),
        ForeachStep::Again
    ));
    assert!(matches!(
        hyper_body::foreach_step(Polled::Failed(Error::new_closed())),
        ForeachStep::Finished(Err(_))
    ));
    assert!(matches!(hyper_body::foreach_called(HYPER_ITER_CONTINUE), ForeachStep::Again));
    match hyper_body::foreach_called(HYPER_ITER_BREAK) {
        ForeachStep::Finished(Err(e)) => {
            assert_eq!(*e.kind(), Kind::User(User::AbortedByCallback))
        }
        _ => panic!("an error was expected"),
    }
}

#[test]
fn io_return_values() {
    assert!(matches!(io_outcome(HYPER_IO_PENDING), Polled::Pending));
    assert!(matches!(io_outcome(HYPER_IO_ERROR), Polled::Failed(())));
    assert!(matches!(io_outcome(12), Polled::Item(12)));
    assert!(matches!(io_outcome(io_noop()), Polled::Item(0)));
    assert_eq!(io_error_text(), "io error");
}

#[test]
fn tasks_have_a_value_once() {
    let mut task = hyper_task::new();
    assert_eq!(task.output_type(), hyper_task_return_type::HYPER_TASK_EMPTY);
    assert!(task.take_value().is_none());
    task.finish(Some(hyper_buf::copy(b"x")).into_dyn_task_type());
    assert_eq!(task.output_type(), hyper_task_return_type::HYPER_TASK_BUF);
    assert!(matches!(task.take_value(), Some(TaskValue::Buf(_))));
    assert!(task.take_value().is_none());
    task.finish(().into_dyn_task_type());
    assert!(task.take_value().is_none());
}

#[test]
fn task_values_are_told_apart() {
    let err: hyper::Result<()> = Err(Error::new_closed());
    let err = err.into_dyn_task_type();
    assert_eq!(err.as_task_type(), hyper_task_return_type::HYPER_TASK_ERROR);
    let ok: hyper::Result<Option<hyper_buf>> = Ok(None);
    let ok = ok.into_dyn_task_type();
    assert_eq!(ok.as_task_type(), hyper_task_return_type::HYPER_TASK_EMPTY);
    let resp = response(200).into_dyn_task_type();
    assert_eq!(resp.as_task_type(), hyper_task_return_type::HYPER_TASK_RESPONSE);
    let (conn, _) = hyper_clientconn_options::new().handshake();
    let conn = conn.into_dyn_task_type();
    assert_eq!(conn.as_task_type(), hyper_task_return_type::HYPER_TASK_CLIENTCONN);
    let err = Error::new_closed().into_dyn_task_type();
    assert_eq!(err.as_task_type(), hyper_task_return_type::HYPER_TASK_ERROR);
}

#[test]
fn executor_goes_on_while_there_is_work() {
    assert_eq!(ExecStep::Start.next(false), ExecStep::Poll);
    assert_eq!(ExecStep::Start.next(true), ExecStep::Poll);
    assert_eq!(ExecStep::Poll.next(true), ExecStep::Finish);
    assert_eq!(ExecStep::Poll.next(false), ExecStep::Drain);
    assert_eq!(ExecStep::Drain.next(true), ExecStep::Poll);
    assert_eq!(ExecStep::Drain.next(false), ExecStep::TakeWoken);
    assert_eq!(ExecStep::TakeWoken.next(true), ExecStep::Poll);
    assert_eq!(ExecStep::TakeWoken.next(false), ExecStep::Finish);
    let mut queue = SpawnQueue::new();
    queue.spawn(1);
    queue.spawn(2);
    assert_eq!(queue.drain(), vec![1, 2]);
    assert!(queue.drain().is_empty());
}

#[test]
fn wakers_wake() {
    let mut task = spawn(std::future::pending::<()>());
    let waker = task.enter(|cx, _| hyper_context::wrap(cx).waker());
    assert!(!task.is_woken());
    waker.wake();
    assert!(task.is_woken());
}

#[test]
fn connection_options() {
    let mut opts = hyper_clientconn_options::new();
    opts.set_preserve_header_case(1);
    opts.set_preserve_header_order(2);
    assert_eq!(opts.set_http1_allow_multiline_headers(1), hyper_code::HYPERE_OK);
    let (conn, setup) = opts.handshake();
    assert!(matches!(conn.tx, Tx::Http1(_)));
    match setup {
        ConnSetup::Http1(setup) => assert_eq!(setup.settings.len(), 2),
        ConnSetup::Http2(_) => panic!("HTTP/1 was expected"),
    }
    opts.set_preserve_header_case(0);
    assert!(!opts.http1_preserve_header_case);
    assert_eq!(opts.set_http2(1), hyper_code::HYPERE_OK);
    let (mut conn, setup) = opts.handshake();
    assert!(matches!(conn.tx, Tx::Http2(_)));
    assert!(matches!(setup, ConnSetup::Http2(_)));
    assert!(conn.send(Request::new(Incoming::empty())).is_ok());
    drop(setup);
    match conn.send(Request::new(Incoming::empty())) {
        Err(e) => assert!(e.is_canceled()),
        Ok(_) => panic!("the connection is gone"),
    }
}
