use http::header::{HeaderMap, HeaderValue, CONTENT_LENGTH, TRANSFER_ENCODING};
use http::Method;

use hyper::headers::{
    add_chunked, connection_close, connection_keep_alive, content_length_parse,
    content_length_parse_all, content_length_parse_all_values, is_chunked, is_chunked_,
    method_has_defined_payload_semantics, set_content_length_if_missing,
    transfer_encoding_is_chunked,
};

fn value(s: &str) -> HeaderValue {
    HeaderValue::from_str(s).unwrap()
}

fn lengths(values: &[&str]) -> Option<u64> {
    let mut headers = HeaderMap::new();
    for v in values {
        headers.append(CONTENT_LENGTH, value(v));
    }
    content_length_parse_all(&headers)
}

#[test]
fn connection_options_are_found() {
    assert!(connection_keep_alive(&value("keep-alive")));
    assert!(connection_keep_alive(&value("Upgrade,  KEEP-Alive ")));
    assert!(!connection_keep_alive(&value("keep-alive-not")));
    assert!(!connection_keep_alive(&value("")));
    assert!(connection_close(&value("foo,Close")));
    assert!(!connection_close(&value("closed")));
    let obs = HeaderValue::from_bytes(b"close, \xff").unwrap();
    assert!(!connection_close(&obs));
}

#[test]
fn one_content_length() {
    assert_eq!(content_length_parse(&value("42")), Some(42));
    assert_eq!(content_length_parse(&value("+42")), None);
    assert_eq!(content_length_parse(&value("")), None);
    assert_eq!(content_length_parse(&value(" 42")), None);
}

#[test]
fn many_content_lengths_must_agree() {
    assert_eq!(lengths(&[]), None);
    assert_eq!(lengths(&["10"]), Some(10));
    assert_eq!(lengths(&["10", "10"]), Some(10));
    assert_eq!(lengths(&["10, 10 ,010", "10"]), Some(10));
    assert_eq!(lengths(&["10", "11"]), None);
    assert_eq!(lengths(&["10,11"]), None);
    assert_eq!(lengths(&["10", ""]), None);
    assert_eq!(lengths(&["10,"]), None);
    assert_eq!(lengths(&["ten"]), None);
    assert_eq!(lengths(&["18446744073709551616"]), None);
    let obs = HeaderValue::from_bytes(b"1\xff").unwrap();
    assert_eq!(content_length_parse_all_values(&vec![&obs]), None);
}

#[test]
fn payload_semantics_of_methods() {
    for m in [Method::GET, Method::HEAD, Method::DELETE, Method::CONNECT] {
        assert!(!method_has_defined_payload_semantics(&m));
    }
    for m in [Method::POST, Method::PUT, Method::PATCH, Method::OPTIONS, Method::TRACE] {
        assert!(method_has_defined_payload_semantics(&m));
    }
    assert!(method_has_defined_payload_semantics(&Method::from_bytes(b"get").unwrap()));
}

#[test]
fn content_length_is_set_once_and_read_back() {
    let mut headers = HeaderMap::new();
    assert!(set_content_length_if_missing(&mut headers, 1234));
    assert_eq!(headers[CONTENT_LENGTH], "1234");
    assert_eq!(content_length_parse_all(&headers), Some(1234));
    assert!(set_content_length_if_missing(&mut headers, 5));
    assert_eq!(content_length_parse_all(&headers), Some(1234));
}

#[test]
fn full_maps_stay_as_they_are() {
    let mut headers = HeaderMap::new();
    let mut n = 0;
    loop {
        let name = http::HeaderName::from_bytes(format!("x-{}", n).as_bytes()).unwrap();
        if headers.try_insert(name, value("1")).is_err() {
            break;
        }
        n += 1;
    }
    assert!(n >= 6554);
    assert!(!set_content_length_if_missing(&mut headers, 5));
    assert!(!add_chunked(&mut headers));
    assert_eq!(headers.len(), n);
    assert_eq!(content_length_parse_all(&headers), None);
    assert!(!transfer_encoding_is_chunked(&headers));
}

#[test]
fn chunked_is_the_last_encoding() {
    assert!(is_chunked_(&value("chunked")));
    assert!(is_chunked_(&value("gzip, Chunked")));
    assert!(!is_chunked_(&value("chunked, gzip")));
    assert!(!is_chunked_(&value("")));
    let gzip = value("gzip");
    let chunked = value("chunked");
    assert!(is_chunked(&vec![&gzip, &chunked]));
    assert!(!is_chunked(&vec![&chunked, &gzip]));
    assert!(!is_chunked(&vec![]));
}

#[test]
fn chunked_is_added_to_the_last_value() {
    let mut headers = HeaderMap::new();
    headers.append(TRANSFER_ENCODING, value("br"));
    headers.append(TRANSFER_ENCODING, value("gzip"));
    assert!(!transfer_encoding_is_chunked(&headers));
    assert!(add_chunked(&mut headers));
    let all: Vec<_> = headers.get_all(TRANSFER_ENCODING).iter().collect();
    assert_eq!(all, vec!["br", "gzip, chunked"]);
    assert!(transfer_encoding_is_chunked(&headers));

    let mut headers = HeaderMap::new();
    assert!(add_chunked(&mut headers));
    assert_eq!(headers[TRANSFER_ENCODING], "chunked");
}
