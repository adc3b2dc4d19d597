//! Items of the `http` crate.

use bytes::Bytes;
use http::header::{
    HeaderMap, HeaderName, HeaderValue, InvalidHeaderName, InvalidHeaderValue, ToStrError,
};
use http::Method as HttpMethod;
use http::Uri as HttpUri;
use http::{
    Request as HttpRequest, Response as HttpResponse, StatusCode, Version as HttpVersion,
};
use vstd::prelude::*;

use crate::common::ascii::{ascii, decimal, lower};
use crate::outside::bytes_crate::content;

verus! {

// ----- errors -----

/// `http::method::InvalidMethod`.
#[verifier::external_type_specification]
#[verifier::external_body]
pub struct ExInvalidMethod(http::method::InvalidMethod);

/// `http::status::InvalidStatusCode`.
#[verifier::external_type_specification]
#[verifier::external_body]
pub struct ExInvalidStatusCode(http::status::InvalidStatusCode);

/// `http::uri::InvalidUri`.
#[verifier::external_type_specification]
#[verifier::external_body]
pub struct ExInvalidUri(http::uri::InvalidUri);

/// `http::uri::InvalidUriParts`.
#[verifier::external_type_specification]
#[verifier::external_body]
pub struct ExInvalidUriParts(http::uri::InvalidUriParts);

/// `http::header::InvalidHeaderName`.
#[verifier::external_type_specification]
#[verifier::external_body]
pub struct ExInvalidHeaderName(InvalidHeaderName);

/// `http::header::InvalidHeaderValue`.
#[verifier::external_type_specification]
#[verifier::external_body]
pub struct ExInvalidHeaderValue(InvalidHeaderValue);

/// `http::header::ToStrError`.
#[verifier::external_type_specification]
#[verifier::external_body]
pub struct ExToStrError(ToStrError);

// ----- messages -----

/// `http::Request`.
#[verifier::external_type_specification]
#[verifier::external_body]
#[verifier::reject_recursive_types(T)]
pub struct ExRequest<T>(HttpRequest<T>);

/// `http::Response`.
#[verifier::external_type_specification]
#[verifier::external_body]
#[verifier::reject_recursive_types(T)]
pub struct ExResponse<T>(HttpResponse<T>);

// ----- tokens -----

/// Whether a byte may stand in a token: a letter, a digit or one of
/// ``!#$%&'*+-.^_`|~``.
pub open spec fn is_tchar(b: u8) -> bool {
    ||| 48 <= b <= 57
    ||| 65 <= b <= 90
    ||| 94 <= b <= 122
    ||| b == 33
    ||| 35 <= b <= 39
    ||| b == 42
    ||| b == 43
    ||| b == 45
    ||| b == 46
    ||| b == 124
    ||| b == 126
}

/// Whether a text is a token.
pub open spec fn is_token(s: Seq<u8>) -> bool {
    s.len() > 0 && forall|i: int| 0 <= i < s.len() ==> is_tchar(#[trigger] s[i])
}

// ----- methods -----

/// `http::Method`.
#[verifier::external_type_specification]
#[verifier::external_body]
pub struct ExMethod(HttpMethod);

/// The text of a method.
pub uninterp spec fn method_text(m: HttpMethod) -> Seq<u8>;

/// `Method::from_bytes`: the method of that text, which must be a token.
pub assume_specification[ HttpMethod::from_bytes ](src: &[u8]) -> (r: std::result::Result<
    HttpMethod,
    http::method::InvalidMethod,
>)
    ensures
        r is Ok <==> is_token(src@),
        r is Ok ==> method_text(r->Ok_0) == src@,
;

/// `Method::as_str`: the text of the method.
#[verifier::external_body]
pub(crate) fn method_bytes(m: &HttpMethod) -> (s: &[u8])
    ensures
        s@ == method_text(*m),
{
    m.as_str().as_bytes()
}

/// `Method::GET`, the default method.
#[verifier::external_body]
pub(crate) fn method_get() -> (m: HttpMethod)
    ensures
        method_text(m) == ascii("GET"@),
{
    HttpMethod::GET
}

// ----- header names -----

/// `http::header::HeaderName`.
#[verifier::external_type_specification]
#[verifier::external_body]
pub struct ExHeaderName(HeaderName);

/// The text of a header name, in lower case.
pub uninterp spec fn name_text(n: HeaderName) -> Seq<u8>;

/// Whether a text can be made a header name: a token of at most 65535 bytes.
pub open spec fn is_header_name(s: Seq<u8>) -> bool {
    is_token(s) && s.len() <= 65535
}

/// A text with its ASCII letters in lower case.
pub open spec fn lowered(s: Seq<u8>) -> Seq<u8> {
    s.map_values(|b: u8| lower(b))
}

/// `HeaderName::from_bytes`: the name of that text, in lower case.
pub assume_specification[ HeaderName::from_bytes ](src: &[u8]) -> (r: std::result::Result<
    HeaderName,
    InvalidHeaderName,
>)
    ensures
        r is Ok <==> is_header_name(src@),
        r is Ok ==> name_text(r->Ok_0) == lowered(src@),
;

/// `HeaderName::as_str`: the text of the name.
#[verifier::external_body]
pub(crate) fn name_bytes(n: &HeaderName) -> (s: &[u8])
    ensures
        s@ == name_text(*n),
{
    n.as_str().as_bytes()
}

/// `Clone for HeaderName`: the same name.
#[verifier::external_body]
pub(crate) fn name_clone(n: &HeaderName) -> (r: HeaderName)
    ensures
        name_text(r) == name_text(*n),
{
    n.clone()
}

/// `PartialEq for HeaderName`: names are equal when their texts are.
#[verifier::external_body]
pub(crate) fn name_same(a: &HeaderName, b: &HeaderName) -> (r: bool)
    ensures
        r == (name_text(*a) == name_text(*b)),
{
    a == b
}

/// `http::header::CONTENT_LENGTH`.
#[verifier::external_body]
pub(crate) fn content_length_name() -> (n: HeaderName)
    ensures
        name_text(n) == ascii("content-length"@),
{
    http::header::CONTENT_LENGTH
}

/// `http::header::TRANSFER_ENCODING`.
#[verifier::external_body]
pub(crate) fn transfer_encoding_name() -> (n: HeaderName)
    ensures
        name_text(n) == ascii("transfer-encoding"@),
{
    http::header::TRANSFER_ENCODING
}

// ----- header values -----

/// `http::header::HeaderValue`.
#[verifier::external_type_specification]
#[verifier::external_body]
pub struct ExHeaderValue(HeaderValue);

/// The bytes of a header value.
pub uninterp spec fn value_bytes(v: HeaderValue) -> Seq<u8>;

/// Whether a byte is visible ASCII, a space or a tab.
pub open spec fn is_visible_ascii(b: u8) -> bool {
    32 <= b < 127 || b == 9
}

/// Whether a text is made of visible ASCII, spaces and tabs.
pub open spec fn is_visible(s: Seq<u8>) -> bool {
    forall|i: int| 0 <= i < s.len() ==> is_visible_ascii(#[trigger] s[i])
}

/// Whether a byte may stand in a header value.
pub open spec fn is_value_byte(b: u8) -> bool {
    (b >= 32 && b != 127) || b == 9
}

/// Whether bytes can be made a header value.
pub open spec fn is_header_value(s: Seq<u8>) -> bool {
    forall|i: int| 0 <= i < s.len() ==> is_value_byte(#[trigger] s[i])
}

/// `HeaderValue::from_bytes`: the value of those bytes, none of which may be a
/// control other than the tab.
pub assume_specification[ HeaderValue::from_bytes ](src: &[u8]) -> (r: std::result::Result<
    HeaderValue,
    InvalidHeaderValue,
>)
    ensures
        r is Ok <==> is_header_value(src@),
        r is Ok ==> value_bytes(r->Ok_0) == src@,
;

/// `HeaderValue::from_maybe_shared` of a `Bytes`: as `from_bytes`, without a copy.
#[verifier::external_body]
pub(crate) fn value_from_shared(src: Bytes) -> (r: std::result::Result<
    HeaderValue,
    InvalidHeaderValue,
>)
    ensures
        r is Ok <==> is_header_value(content(src)),
        r is Ok ==> value_bytes(r->Ok_0) == content(src),
{
    HeaderValue::from_maybe_shared(src)
}

/// `From<u64> for HeaderValue`: the number in decimal.
#[verifier::external_body]
pub(crate) fn value_from_number(n: u64) -> (v: HeaderValue)
    ensures
        value_bytes(v) == ascii(decimal(n as nat)),
{
    HeaderValue::from(n)
}

/// `HeaderValue::as_bytes`: the bytes of the value, all of which may stand in a
/// header value.
pub assume_specification[ HeaderValue::as_bytes ](v: &HeaderValue) -> (s: &[u8])
    ensures
        s@ == value_bytes(*v),
        is_header_value(s@),
;

/// `Clone for HeaderValue`: the same bytes.
#[verifier::external_body]
pub(crate) fn value_clone(v: &HeaderValue) -> (r: HeaderValue)
    ensures
        value_bytes(r) == value_bytes(*v),
{
    v.clone()
}

/// `HeaderValue::to_str`: the value as a string, when it is visible ASCII.
pub assume_specification[ HeaderValue::to_str ](v: &HeaderValue) -> (r: std::result::Result<
    &str,
    ToStrError,
>)
    ensures
        r is Ok <==> is_visible(value_bytes(*v)),
        r is Ok ==> r->Ok_0.is_ascii() && ascii(r->Ok_0@) == value_bytes(*v),
;

// ----- header maps -----

/// `http::HeaderMap`.
#[verifier::external_type_specification]
#[verifier::external_body]
#[verifier::reject_recursive_types(T)]
pub struct ExHeaderMap<T>(HeaderMap<T>);

/// The values that a header map holds under each name, in their order.
pub uninterp spec fn headers_of(m: HeaderMap<HeaderValue>) -> Map<Seq<u8>, Seq<Seq<u8>>>;

/// The runs of bytes that a map of `Bytes` holds under each name, in their order.
pub uninterp spec fn cases_of(m: HeaderMap<Bytes>) -> Map<Seq<u8>, Seq<Seq<u8>>>;

/// The texts of some names.
pub open spec fn name_texts(names: Seq<&HeaderName>) -> Seq<Seq<u8>> {
    names.map_values(|n: &HeaderName| name_text(*n))
}

/// The bytes of some values.
pub open spec fn value_texts(values: Seq<&HeaderValue>) -> Seq<Seq<u8>> {
    values.map_values(|v: &HeaderValue| value_bytes(*v))
}

/// The bytes of some runs of bytes.
pub open spec fn run_texts(runs: Seq<&Bytes>) -> Seq<Seq<u8>> {
    runs.map_values(|b: &Bytes| content(*b))
}

/// The contents of a map without names.
pub open spec fn no_headers() -> Map<Seq<u8>, Seq<Seq<u8>>> {
    Map::empty()
}

/// What a map holds under a name; nothing where the name is missing.
pub open spec fn values_at(m: Map<Seq<u8>, Seq<Seq<u8>>>, name: Seq<u8>) -> Seq<Seq<u8>> {
    if m.dom().contains(name) {
        m[name]
    } else {
        Seq::empty()
    }
}

/// Whether a list holds each name of a map once.
pub open spec fn are_names_of(names: Seq<Seq<u8>>, m: Map<Seq<u8>, Seq<Seq<u8>>>) -> bool {
    names.no_duplicates() && forall|name: Seq<u8>| #[trigger]
        names.contains(name) <==> m.dom().contains(name)
}

/// With fewer names than this a header map surely takes one more. One that has
/// reached its largest size refuses to grow when three quarters of its 32768 slots
/// are taken, or a fifth of them and too many names collide.
pub const NAMES_LIMIT: usize = 6554;

/// Whether a map of these contents surely takes one more name.
pub open spec fn has_room(m: Map<Seq<u8>, Seq<Seq<u8>>>) -> bool {
    m.dom().finite() && m.dom().len() < NAMES_LIMIT
}

/// `HeaderMap::new`: no names.
#[verifier::external_body]
pub(crate) fn headers_new() -> (m: HeaderMap)
    ensures
        headers_of(m) == no_headers(),
{
    HeaderMap::new()
}

/// `Clone for HeaderMap`: the same contents.
#[verifier::external_body]
pub(crate) fn headers_clone(m: &HeaderMap) -> (r: HeaderMap)
    ensures
        headers_of(r) == headers_of(*m),
{
    m.clone()
}

/// `HeaderMap::get_all`: the values under a name, in their order. A name that is
/// there has a value.
#[verifier::external_body]
pub(crate) fn headers_get_all<'a>(m: &'a HeaderMap, name: &HeaderName) -> (r: Vec<&'a HeaderValue>)
    ensures
        value_texts(r@) == values_at(headers_of(*m), name_text(*name)),
        r.len() == 0 <==> !headers_of(*m).dom().contains(name_text(*name)),
{
    m.get_all(name).iter().collect()
}

/// `HeaderMap::keys`: each name once, in no particular order.
#[verifier::external_body]
pub(crate) fn headers_keys<'a>(m: &'a HeaderMap) -> (r: Vec<&'a HeaderName>)
    ensures
        are_names_of(name_texts(r@), headers_of(*m)),
{
    m.keys().collect()
}

/// The contents with this value in place of all under a name.
pub open spec fn inserted(
    m: Map<Seq<u8>, Seq<Seq<u8>>>,
    name: Seq<u8>,
    value: Seq<u8>,
) -> Map<Seq<u8>, Seq<Seq<u8>>> {
    m.insert(name, seq![value])
}

/// The contents with this value behind those under a name.
pub open spec fn appended(
    m: Map<Seq<u8>, Seq<Seq<u8>>>,
    name: Seq<u8>,
    value: Seq<u8>,
) -> Map<Seq<u8>, Seq<Seq<u8>>> {
    m.insert(name, values_at(m, name).push(value))
}

/// The contents with this value under a name that had none.
pub open spec fn filled_in(
    m: Map<Seq<u8>, Seq<Seq<u8>>>,
    name: Seq<u8>,
    value: Seq<u8>,
) -> Map<Seq<u8>, Seq<Seq<u8>>> {
    if m.dom().contains(name) {
        m
    } else {
        inserted(m, name, value)
    }
}

/// The contents with this value in place of the last under a name.
pub open spec fn last_replaced(
    m: Map<Seq<u8>, Seq<Seq<u8>>>,
    name: Seq<u8>,
    value: Seq<u8>,
) -> Map<Seq<u8>, Seq<Seq<u8>>> {
    m.insert(name, m[name].drop_last().push(value))
}

/// The contents after a change, which takes place only where the map can grow.
pub open spec fn changed_if(
    fits: bool,
    before: Map<Seq<u8>, Seq<Seq<u8>>>,
    change: Map<Seq<u8>, Seq<Seq<u8>>>,
) -> Map<Seq<u8>, Seq<Seq<u8>>> {
    if fits {
        change
    } else {
        before
    }
}

/// `HeaderMap::try_insert`: the value takes the place of all values under its name,
/// where the map can grow.
#[verifier::external_body]
pub(crate) fn headers_insert(m: &mut HeaderMap, name: HeaderName, value: HeaderValue) -> (fits:
    bool)
    ensures
        has_room(headers_of(*old(m))) ==> fits,
        headers_of(*final(m)) == changed_if(
            fits,
            headers_of(*old(m)),
            inserted(headers_of(*old(m)), name_text(name), value_bytes(value)),
        ),
{
    m.try_insert(name, value).is_ok()
}

/// `HeaderMap::try_append`: the value comes behind those under its name, where the
/// map can grow.
#[verifier::external_body]
pub(crate) fn headers_append(m: &mut HeaderMap, name: HeaderName, value: HeaderValue) -> (fits:
    bool)
    ensures
        has_room(headers_of(*old(m))) ==> fits,
        headers_of(*final(m)) == changed_if(
            fits,
            headers_of(*old(m)),
            appended(headers_of(*old(m)), name_text(name), value_bytes(value)),
        ),
{
    m.try_append(name, value).is_ok()
}

/// `HeaderMap::try_entry` with `Entry::or_try_insert`: the value is put there only
/// where its name has none, and where the map can grow.
#[verifier::external_body]
pub(crate) fn headers_or_insert(m: &mut HeaderMap, name: HeaderName, value: HeaderValue) -> (fits:
    bool)
    ensures
        has_room(headers_of(*old(m))) ==> fits,
        headers_of(*final(m)) == changed_if(
            fits,
            headers_of(*old(m)),
            filled_in(headers_of(*old(m)), name_text(name), value_bytes(value)),
        ),
{
    match m.try_entry(name) {
        Ok(entry) => entry.or_try_insert(value).is_ok(),
        Err(_) => false,
    }
}

/// `HeaderMap::try_entry` with `OccupiedEntry::iter_mut`, from its back: the last
/// value under a name is replaced. The map must be able to grow even so.
#[verifier::external_body]
pub(crate) fn headers_set_last(m: &mut HeaderMap, name: HeaderName, value: HeaderValue) -> (fits:
    bool)
    requires
        headers_of(*old(m)).dom().contains(name_text(name)),
    ensures
        has_room(headers_of(*old(m))) ==> fits,
        headers_of(*final(m)) == changed_if(
            fits,
            headers_of(*old(m)),
            last_replaced(headers_of(*old(m)), name_text(name), value_bytes(value)),
        ),
{
    match m.try_entry(name) {
        Ok(http::header::Entry::Occupied(mut entry)) => {
            if let Some(line) = entry.iter_mut().next_back() {
                *line = value;
            }
            true
        },
        _ => false,
    }
}

/// `HeaderMap::default` for a map of `Bytes`: no names.
#[verifier::external_body]
pub(crate) fn cases_new() -> (m: HeaderMap<Bytes>)
    ensures
        cases_of(m) == no_headers(),
{
    HeaderMap::default()
}

/// `Clone for HeaderMap` for a map of `Bytes`: the same contents.
#[verifier::external_body]
pub(crate) fn cases_clone(m: &HeaderMap<Bytes>) -> (r: HeaderMap<Bytes>)
    ensures
        cases_of(r) == cases_of(*m),
{
    m.clone()
}

/// `HeaderMap::get_all` for a map of `Bytes`: the items under a name, in their
/// order.
#[verifier::external_body]
pub(crate) fn cases_get_all<'a>(m: &'a HeaderMap<Bytes>, name: &HeaderName) -> (r: Vec<&'a Bytes>)
    ensures
        run_texts(r@) == values_at(cases_of(*m), name_text(*name)),
{
    m.get_all(name).iter().collect()
}

/// `HeaderMap::try_insert` for a map of `Bytes`: the item takes the place of all
/// under its name, where the map can grow.
#[verifier::external_body]
pub(crate) fn cases_insert(m: &mut HeaderMap<Bytes>, name: HeaderName, item: Bytes) -> (fits: bool)
    ensures
        has_room(cases_of(*old(m))) ==> fits,
        cases_of(*final(m)) == changed_if(
            fits,
            cases_of(*old(m)),
            inserted(cases_of(*old(m)), name_text(name), content(item)),
        ),
{
    m.try_insert(name, item).is_ok()
}

/// `HeaderMap::try_append` for a map of `Bytes`: the item comes behind those under
/// its name, where the map can grow.
#[verifier::external_body]
pub(crate) fn cases_append(m: &mut HeaderMap<Bytes>, name: HeaderName, item: Bytes) -> (fits: bool)
    ensures
        has_room(cases_of(*old(m))) ==> fits,
        cases_of(*final(m)) == changed_if(
            fits,
            cases_of(*old(m)),
            appended(cases_of(*old(m)), name_text(name), content(item)),
        ),
{
    m.try_append(name, item).is_ok()
}

// ----- status codes and versions -----

/// `http::StatusCode`.
#[verifier::external_type_specification]
#[verifier::external_body]
pub struct ExStatusCode(StatusCode);

/// `http::Version`.
#[verifier::external_type_specification]
#[verifier::external_body]
pub struct ExVersion(HttpVersion);

/// The number of a status code.
pub uninterp spec fn status_number(s: StatusCode) -> u16;

/// The number of a version: ten times the part before the dot and the part behind
/// it.
pub uninterp spec fn version_number(v: HttpVersion) -> u8;

/// The status code of a response without a body.
pub uninterp spec fn response_code(r: HttpResponse<()>) -> u16;

/// The version of a response without a body.
pub uninterp spec fn response_version_of(r: HttpResponse<()>) -> u8;

/// The headers of a response without a body.
pub uninterp spec fn response_headers(r: HttpResponse<()>) -> Map<Seq<u8>, Seq<Seq<u8>>>;

/// `Response::status`: the status code of the response.
#[verifier::external_body]
pub(crate) fn response_status(r: &HttpResponse<()>) -> (status: StatusCode)
    ensures
        status_number(status) == response_code(*r),
{
    r.status()
}

/// `Response::version`: the version of the response.
#[verifier::external_body]
pub(crate) fn response_version(r: &HttpResponse<()>) -> (version: HttpVersion)
    ensures
        version_number(version) == response_version_of(*r),
{
    r.version()
}

/// `Response::headers`: the headers of the response.
#[verifier::external_body]
pub(crate) fn response_head(r: &HttpResponse<()>) -> (headers: &HeaderMap)
    ensures
        headers_of(*headers) == response_headers(*r),
{
    r.headers()
}

/// `StatusCode::as_u16`: the number of the status code.
#[verifier::external_body]
pub(crate) fn status_code(s: &StatusCode) -> (code: u16)
    ensures
        code == status_number(*s),
{
    s.as_u16()
}

/// The usual reason phrase of a status code.
pub uninterp spec fn canonical_reason(code: u16) -> Option<Seq<u8>>;

/// `StatusCode::canonical_reason`: the usual reason phrase, where there is one.
#[verifier::external_body]
pub(crate) fn status_reason(s: &StatusCode) -> (r: Option<&'static [u8]>)
    ensures
        r is Some <==> canonical_reason(status_number(*s)) is Some,
        r is Some ==> r->0@ == canonical_reason(status_number(*s))->0,
{
    s.canonical_reason().map(|text| text.as_bytes())
}

/// `Version::HTTP_10`.
#[verifier::external_body]
pub(crate) fn version_http_10() -> (v: HttpVersion)
    ensures
        version_number(v) == 10,
{
    HttpVersion::HTTP_10
}

/// `Version::HTTP_11`.
#[verifier::external_body]
pub(crate) fn version_http_11() -> (v: HttpVersion)
    ensures
        version_number(v) == 11,
{
    HttpVersion::HTTP_11
}

/// `Version::HTTP_2`.
#[verifier::external_body]
pub(crate) fn version_http_2() -> (v: HttpVersion)
    ensures
        version_number(v) == 20,
{
    HttpVersion::HTTP_2
}

/// Tells the values of `Version` apart, of which there are five.
#[verifier::external_body]
pub(crate) fn version_code(v: &HttpVersion) -> (number: u8)
    ensures
        number == version_number(*v),
{
    match *v {
        HttpVersion::HTTP_09 => 9,
        HttpVersion::HTTP_10 => 10,
        HttpVersion::HTTP_11 => 11,
        HttpVersion::HTTP_2 => 20,
        _ => 30,
    }
}

// ----- URIs -----

/// `http::Uri`.
#[verifier::external_type_specification]
#[verifier::external_body]
pub struct ExUri(HttpUri);

/// The text of an URI.
pub uninterp spec fn uri_text(u: HttpUri) -> Seq<char>;

/// The text of the URI that bytes are parsed to, where they can be.
pub uninterp spec fn uri_of(s: Seq<u8>) -> Option<Seq<char>>;

/// The text of the URI that is built of a scheme, an authority, and a path with a
/// query, each of which may be missing, where one can be.
pub uninterp spec fn uri_from_parts(
    scheme: Option<Seq<u8>>,
    authority: Option<Seq<u8>>,
    path_and_query: Option<Seq<u8>>,
) -> Option<Seq<char>>;

/// The bytes of a part that may be missing.
pub open spec fn part_text(part: Option<&[u8]>) -> Option<Seq<u8>> {
    match part {
        Some(s) => Some(s@),
        None => None,
    }
}

/// `Default for Uri`: the root.
#[verifier::external_body]
pub(crate) fn uri_default() -> (u: HttpUri)
    ensures
        uri_text(u) == "/"@,
{
    HttpUri::default()
}

/// `Uri::from_maybe_shared`: the URI of those bytes.
#[verifier::external_body]
pub(crate) fn uri_parse(src: &[u8]) -> (r: Option<HttpUri>)
    ensures
        r is Some <==> uri_of(src@) is Some,
        r is Some ==> uri_text(r->0) == uri_of(src@)->0,
{
    HttpUri::from_maybe_shared(Bytes::copy_from_slice(src)).ok()
}

/// `Uri::builder` and `uri::Builder::build`: the URI of those parts.
#[verifier::external_body]
pub(crate) fn uri_build(
    scheme: Option<&[u8]>,
    authority: Option<&[u8]>,
    path_and_query: Option<&[u8]>,
) -> (r: Option<HttpUri>)
    ensures
        r is Some <==> uri_from_parts(
            part_text(scheme),
            part_text(authority),
            part_text(path_and_query),
        ) is Some,
        r is Some ==> uri_text(r->0) == uri_from_parts(
            part_text(scheme),
            part_text(authority),
            part_text(path_and_query),
        )->0,
{
    let mut builder = HttpUri::builder();
    if let Some(s) = scheme {
        builder = builder.scheme(s);
    }
    if let Some(s) = authority {
        builder = builder.authority(s);
    }
    if let Some(s) = path_and_query {
        builder = builder.path_and_query(s);
    }
    builder.build().ok()
}

} // verus!
