use bytes::Bytes;
use http::header::HeaderName;

use hyper::ext::h1_reason_phrase::{find_invalid_byte, is_valid_byte};
use hyper::ext::informational::Response;
use hyper::ext::{HeaderCaseMap, OriginalHeaderOrder, Protocol, ReasonPhrase};

#[test]
fn basic_valid() {
    const PHRASE: &[u8] = b"OK";
    assert_eq!(ReasonPhrase::from_static(PHRASE).as_bytes(), PHRASE);
    assert_eq!(ReasonPhrase::try_from(PHRASE).unwrap().as_bytes(), PHRASE);
}

#[test]
fn empty_valid() {
    const PHRASE: &[u8] = b"";
    assert_eq!(ReasonPhrase::from_static(PHRASE).as_bytes(), PHRASE);
    assert_eq!(ReasonPhrase::try_from(PHRASE).unwrap().as_bytes(), PHRASE);
}

#[test]
fn obs_text_valid() {
    const PHRASE: &[u8] = b"hyp\xe9r";
    assert_eq!(ReasonPhrase::from_static(PHRASE).as_bytes(), PHRASE);
    assert_eq!(ReasonPhrase::try_from(PHRASE).unwrap().as_bytes(), PHRASE);
}

const NEWLINE_PHRASE: &[u8] = b"hyp\ner";

#[test]
fn newline_invalid_err() {
    assert!(ReasonPhrase::try_from(NEWLINE_PHRASE).is_err());
}

const CR_PHRASE: &[u8] = b"hyp\rer";

#[test]
fn cr_invalid_err() {
    assert!(ReasonPhrase::try_from(CR_PHRASE).is_err());
}

#[test]
fn phrases_from_owned_bytes() {
    assert_eq!(ReasonPhrase::try_from(b"Fine".to_vec()).unwrap().as_bytes(), b"Fine");
    assert_eq!(ReasonPhrase::try_from("Fine".to_string()).unwrap().as_bytes(), b"Fine");
    assert_eq!(
        ReasonPhrase::try_from("caf\u{e9}".to_string()).unwrap().as_bytes(),
        "caf\u{e9}".as_bytes()
    );
    assert_eq!(ReasonPhrase::try_from(Bytes::from_static(b"Fine")).unwrap().as_bytes(), b"Fine");
    let err = ReasonPhrase::try_from(b"a\x00\n".to_vec()).unwrap_err();
    assert_eq!(err.text(), "Invalid byte in reason phrase: 0");
    let err = ReasonPhrase::try_from("a\u{7f}".to_string()).unwrap_err();
    assert_eq!(err.text(), "Invalid byte in reason phrase: 127");
    assert!(ReasonPhrase::try_from(Bytes::from_static(b"\r")).is_err());
    let phrase = ReasonPhrase::from_static(b"Awesome");
    assert_eq!(phrase.clone(), phrase);
    assert_eq!(Bytes::from(phrase), "Awesome");
    assert_eq!(
        ReasonPhrase::from_bytes_unchecked(Bytes::from_static(b"x\n")).as_bytes(),
        b"x\n"
    );
}

#[test]
fn bytes_of_phrases() {
    for b in 0..=255u8 {
        let valid = b == b'\t' || (b >= b' ' && b != 0x7f);
        assert_eq!(is_valid_byte(b), valid, "{}", b);
    }
    assert_eq!(find_invalid_byte(b"ok \x01\x02"), Some(1));
    assert_eq!(find_invalid_byte(b"ok"), None);
}

#[test]
fn protocols_keep_their_name() {
    let p = Protocol::from_static("websocket");
    assert_eq!(p.as_str(), "websocket");
    assert_eq!(p.as_bytes(), b"websocket");
    assert_eq!(Protocol::from("websocket"), p);
    assert_eq!(p.clone().into_inner().as_str(), "websocket");
    assert_eq!(Protocol::from_inner(h2::ext::Protocol::from_static("x")).as_str(), "x");
}

fn name(s: &'static str) -> HeaderName {
    HeaderName::from_static(s)
}

#[test]
fn spellings_are_kept_in_order() {
    let mut map = HeaderCaseMap::default();
    for orig in ["x-Bread", "X-BREAD", "x-bread"] {
        assert!(map.append(name("x-bread"), Bytes::from_static(orig.as_bytes())));
    }
    assert_eq!(map.get_all(&name("x-bread")), vec!["x-Bread", "X-BREAD", "x-bread"]);
    assert!(map.get_all(&name("other")).is_empty());
    assert!(map.insert(name("x-bread"), Bytes::from_static(b"X-Bread")));
    assert_eq!(map.get_all(&name("x-bread")), vec!["X-Bread"]);
}

#[test]
fn order_counts_each_name() {
    let mut order = OriginalHeaderOrder::default();
    order.append(name("set-cookie"));
    order.append(name("content-encoding"));
    order.append(name("set-cookie"));
    let entries = |order: &OriginalHeaderOrder| -> Vec<(String, usize)> {
        order.get_in_order().iter().map(|(n, i)| (n.to_string(), *i)).collect()
    };
    let entry = |n: &str, i: usize| (n.to_string(), i);
    assert_eq!(
        entries(&order),
        vec![entry("set-cookie", 0), entry("content-encoding", 0), entry("set-cookie", 1)]
    );
    order.insert(name("set-cookie"));
    order.insert(name("host"));
    assert_eq!(
        entries(&order),
        vec![
            entry("set-cookie", 0),
            entry("content-encoding", 0),
            entry("set-cookie", 1),
            entry("host", 0)
        ]
    );
}

#[test]
fn order_finds_values_again() {
    let mut order = OriginalHeaderOrder::default();
    let mut map = http::HeaderMap::new();
    let items = [("set-cookie", "a=b"), ("content-encoding", "gzip"), ("set-cookie", "c=d")];
    for (n, v) in items {
        map.append(name(n), v.parse::<http::HeaderValue>().unwrap());
        order.append(name(n));
    }
    for (entry, (n, v)) in order.get_in_order().iter().zip(items) {
        assert_eq!(entry.0, n);
        assert_eq!(map.get_all(&entry.0).iter().nth(entry.1).unwrap(), v);
    }
}

#[test]
fn informational_responses_are_seen_through() {
    let mut res = http::Response::new(());
    *res.status_mut() = http::StatusCode::EARLY_HINTS;
    res.headers_mut().insert("link", "</style.css>".parse().unwrap());
    let seen = Response::new(&res);
    assert_eq!(seen.status(), 103);
    assert_eq!(seen.version(), http::Version::HTTP_11);
    assert_eq!(seen.headers()["link"], "</style.css>");
}
