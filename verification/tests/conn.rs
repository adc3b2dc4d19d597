use http::{Request, Response};
use std::time::Duration;
use tokio_test::task::spawn;

use hyper::body::Incoming;
use hyper::client::conn::http1::{
    finish, promised, promised_or_back, Dispatched, Finish, Setting,
};
use hyper::client::conn::http2::ready_unless_closed;
use hyper::client::conn::{http1, http2};
use hyper::common::task::Polled;
use hyper::common::time::Time;
use hyper::error::{Error, Link};

fn cause_text(err: &Error) -> &str {
    match err.source() {
        Some(Link::Message(text)) => text,
        other => panic!("unexpected: {:?}", other),
    }
}

fn failure<T, E>(r: Result<T, E>) -> E {
    match r {
        Ok(_) => panic!("a failure was expected"),
        Err(e) => e,
    }
}

#[test]
fn http1_settings_follow_the_options() {
    assert!(http1::Builder::new().settings().is_empty());
    let mut builder = http1::Builder::new();
    builder
        .http09_responses(true)
        .writev(true)
        .title_case_headers(true)
        .preserve_header_case(true)
        .max_headers(5)
        .preserve_header_order(true)
        .max_buf_size(8192);
    assert_eq!(
        builder.settings(),
        vec![
            Setting::WriteStrategyQueue,
            Setting::TitleCaseHeaders,
            Setting::PreserveHeaderCase,
            Setting::MaxHeaders(5),
            Setting::PreserveHeaderOrder,
            Setting::H09Responses,
            Setting::MaxBufSize(8192),
        ]
    );
    builder.writev(false);
    assert_eq!(builder.settings()[0], Setting::WriteStrategyFlatten);
}

#[test]
fn http1_buffer_sizes_exclude_each_other() {
    let mut builder = http1::Builder::new();
    builder.max_buf_size(10000).read_buf_exact_size(Some(77));
    assert_eq!(builder.settings(), vec![Setting::ReadBufExactSize(77)]);
    builder.max_buf_size(9000);
    assert_eq!(builder.settings(), vec![Setting::MaxBufSize(9000)]);
    builder.read_buf_exact_size(None);
    assert!(builder.settings().is_empty());
}

const SPACED: &[u8] = b"HTTP/1.1 200 OK\r\nHost : x\r\n\r\n";
const FOLDED: &[u8] = b"HTTP/1.1 200 OK\r\nHost: x\r\n y\r\n\r\n";
const BROKEN: &[u8] = b"HTTP/1.1 200 OK\r\nno colon here\r\nHost: x\r\n\r\n";

fn parses(config: &httparse::ParserConfig, bytes: &[u8]) -> bool {
    let mut headers = [httparse::EMPTY_HEADER; 4];
    let mut response = httparse::Response::new(&mut headers);
    config.parse_response(&mut response, bytes).is_ok()
}

#[test]
fn http1_parser_options_reach_the_parser() {
    let mut builder = http1::Builder::new();
    let config = builder.handshake::<Incoming>().1.parser_config;
    assert!(!parses(&config, SPACED) && !parses(&config, FOLDED) && !parses(&config, BROKEN));
    builder.allow_spaces_after_header_name_in_responses(true);
    let config = builder.handshake::<Incoming>().1.parser_config;
    assert!(parses(&config, SPACED) && !parses(&config, FOLDED) && !parses(&config, BROKEN));
    builder
        .allow_spaces_after_header_name_in_responses(false)
        .allow_obsolete_multiline_headers_in_responses(true);
    let config = builder.handshake::<Incoming>().1.parser_config;
    assert!(!parses(&config, SPACED) && parses(&config, FOLDED) && !parses(&config, BROKEN));
    builder
        .allow_obsolete_multiline_headers_in_responses(false)
        .ignore_invalid_headers_in_responses(true);
    let config = builder.handshake::<Incoming>().1.parser_config;
    assert!(parses(&config, BROKEN));
}

#[test]
fn http1_requests_go_through() {
    let (mut tx, mut setup) = http1::Builder::new().handshake::<&str>();
    let mut promise = tx.send_request(Request::new("one")).expect("sent");
    let err = failure(tx.send_request(Request::new("two")));
    assert!(err.is_canceled());
    assert_eq!(cause_text(&err), "connection was not ready");
    let mut err = failure(tx.try_send_request(Request::new("three")));
    assert_eq!(cause_text(err.error()), "connection was not ready");
    assert_eq!(*err.take_message().unwrap().body(), "three");
    let (req, callback) = setup.requests.try_recv().unwrap();
    assert_eq!(*req.body(), "one");
    callback.send(Ok(Response::new(Incoming::empty())));
    assert_eq!(promise.try_recv().unwrap().unwrap().status(), 200);
    assert!(!tx.is_ready() && !tx.is_closed());
    setup.requests.shut();
    assert!(tx.is_closed());
    match spawn(std::future::pending::<()>()).enter(|cx, _| tx.poll_ready(cx)) {
        Polled::Failed(e) => assert!(e.is_closed()),
        other => panic!("unexpected: {:?}", other),
    }
}

#[test]
fn promises_or_errors() {
    assert_eq!(promised::<i32, ()>(Ok(1)).unwrap(), 1);
    assert_eq!(cause_text(&promised::<i32, i32>(Err(2)).unwrap_err()), "connection was not ready");
    assert_eq!(promised_or_back::<i32, i32>(Ok(1)).unwrap(), 1);
    let err = promised_or_back::<i32, i32>(Err(2)).unwrap_err();
    assert_eq!(err.message(), Some(&2));
    assert!(err.error().is_canceled());
    assert!(matches!(ready_unless_closed(false), Polled::Item(())));
    assert!(matches!(ready_unless_closed(true), Polled::Failed(_)));
}

#[test]
fn plain_handshakes() {
    let (tx, setup) = http1::handshake::<()>();
    assert!(!tx.is_closed());
    assert!(setup.settings.is_empty());
    let (tx, setup) = http2::handshake::<u8, (), ()>(3);
    assert!(tx.is_ready());
    assert_eq!(setup.executor, 3);
    assert!(matches!(setup.timer, hyper::common::time::Time::Empty));
    assert_eq!(setup.config.initial_max_send_streams, None);
}

#[test]
fn connections_come_to_an_end() {
    assert_eq!(finish(Ok(Dispatched::Shutdown), true).unwrap(), Finish::Closed);
    assert_eq!(finish(Ok(Dispatched::Upgrade), false).unwrap(), Finish::ManualUpgrade);
    assert_eq!(finish(Ok(Dispatched::Upgrade), true).unwrap(), Finish::HandOver);
    assert!(finish(Err(Error::new_closed()), true).unwrap_err().is_closed());
}

#[test]
fn http2_options_start_as_documented() {
    let builder: http2::Builder<(), ()> = http2::Builder::new(());
    let c = builder.h2_builder;
    assert!(!c.adaptive_window);
    assert_eq!(c.max_frame_size, Some(16 * 1024));
    assert_eq!(c.max_header_list_size, 16 * 1024);
    assert_eq!(c.max_send_buffer_size, 1024 * 1024);
    assert_eq!(c.keep_alive_interval, None);
    assert_eq!(c.keep_alive_timeout, Duration::from_secs(20));
    assert!(!c.keep_alive_while_idle);
    assert!(matches!(builder.timer, Time::Empty));
}

#[test]
fn http2_windows_adapt_or_are_set() {
    let mut builder: http2::Builder<(), ()> = http2::Builder::new(());
    builder.initial_stream_window_size(Some(5)).initial_connection_window_size(Some(6));
    builder.adaptive_window(true);
    let c = builder.h2_builder;
    assert!(c.adaptive_window);
    assert_eq!(c.initial_stream_window_size, Some(65535));
    assert_eq!(c.initial_conn_window_size, Some(65535));
    builder.initial_stream_window_size(None);
    assert!(builder.h2_builder.adaptive_window);
    builder.initial_stream_window_size(Some(9));
    let c = builder.h2_builder;
    assert!(!c.adaptive_window);
    assert_eq!(c.initial_stream_window_size, Some(9));
    assert_eq!(c.initial_conn_window_size, Some(65535));
    builder.adaptive_window(true).initial_connection_window_size(Some(1));
    assert!(!builder.h2_builder.adaptive_window);
}

#[test]
fn http2_options_are_set() {
    let mut builder: http2::Builder<u8, char> = http2::Builder::new(3);
    builder
        .timer('t')
        .initial_max_send_streams(Some(7))
        .initial_max_send_streams(None)
        .max_frame_size(None)
        .max_header_list_size(1)
        .header_table_size(Some(2))
        .max_concurrent_streams(Some(3))
        .keep_alive_interval(Some(Duration::from_secs(4)))
        .keep_alive_timeout(Duration::from_secs(5))
        .keep_alive_while_idle(true)
        .max_concurrent_reset_streams(6)
        .max_send_buf_size(u32::MAX as usize)
        .max_pending_accept_reset_streams(Some(8));
    let (_, setup) = builder.handshake::<()>();
    let c = setup.config;
    assert_eq!(c.initial_max_send_streams, Some(7));
    assert_eq!(c.max_frame_size, None);
    assert_eq!(c.max_header_list_size, 1);
    assert_eq!(c.header_table_size, Some(2));
    assert_eq!(c.max_concurrent_streams, Some(3));
    assert_eq!(c.keep_alive_interval, Some(Duration::from_secs(4)));
    assert_eq!(c.keep_alive_timeout, Duration::from_secs(5));
    assert!(c.keep_alive_while_idle);
    assert_eq!(c.max_concurrent_reset_streams, Some(6));
    assert_eq!(c.max_send_buffer_size, u32::MAX as usize);
    assert_eq!(c.max_pending_accept_reset_streams, Some(8));
    assert_eq!(builder.executor, 3);
    match builder.timer {
        Time::Timer(t) => assert_eq!(*t, 't'),
        Time::Empty => panic!("a timer was set"),
    }
}

#[test]
fn http2_requests_go_through() {
    let builder: http2::Builder<(), ()> = http2::Builder::new(());
    let (tx, mut setup) = builder.handshake::<&str>();
    let mut tx = tx.clone();
    let _first = tx.send_request(Request::new("one")).unwrap();
    let mut second = tx.try_send_request(Request::new("two")).unwrap();
    assert!(tx.is_ready() && !tx.is_closed());
    assert!(matches!(
        spawn(std::future::pending::<()>()).enter(|cx, _| tx.poll_ready(cx)),
        Polled::Item(())
    ));
    setup.requests.shut();
    let err = failure(second.try_recv().unwrap());
    assert_eq!(cause_text(err.error()), "connection closed");
    assert_eq!(*err.message().unwrap().body(), "two");
    assert!(tx.is_closed());
    match spawn(std::future::pending::<()>()).enter(|cx, _| tx.poll_ready(cx)) {
        Polled::Failed(e) => assert!(e.is_closed()),
        other => panic!("unexpected: {:?}", other),
    }
    let err = failure(tx.send_request(Request::new("three")));
    assert_eq!(cause_text(&err), "connection was not ready");
    let err = failure(tx.try_send_request(Request::new("four")));
    assert_eq!(*err.message().unwrap().body(), "four");
}
