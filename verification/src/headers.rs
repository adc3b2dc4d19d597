//! Rules on the header fields that frame a message: `connection`,
//! `content-length` and `transfer-encoding`.

use bytes::BytesMut;
use http::header::{HeaderMap, HeaderValue};
use http::Method;
use vstd::prelude::*;

use crate::common::ascii::{
    all_digits, ascii, decimal, eq_bytes, eq_ignore_case, from_digits, is_digit,
    law_decimal_reads_back, law_list_of_one, law_lists_join, law_same_ignoring_case,
    lemma_ascii_bytes, lemma_list_items_ignore_case, lemma_list_not_empty,
    lemma_pieces_join, lemma_single_piece, list_items, lower, number, pieces, same_ignoring_case,
    split_list, trim_end, trim_start, trimmed,
};
use crate::outside::bytes_crate::{content, content_mut};
use crate::outside::http_crate::{
    changed_if, content_length_name, filled_in, has_room, headers_get_all, headers_insert,
    headers_of, headers_or_insert, headers_set_last, is_header_value, is_value_byte, is_visible,
    is_visible_ascii, method_bytes, method_text, transfer_encoding_name, value_bytes,
    value_from_number, value_from_shared, value_texts, values_at,
};

verus! {

/// Whether a header value lists an option, whatever the case of its letters.
pub open spec fn lists_option(value: Seq<u8>, option: Seq<u8>) -> bool {
    is_visible(value) && exists|i: int|
        0 <= i < list_items(value).len() && same_ignoring_case(
            #[trigger] list_items(value)[i],
            option,
        )
}

/// Whether the values of `content-length` all say the same length: each is a
/// list of numbers, and every number is this one.
pub open spec fn all_say(values: Seq<Seq<u8>>, n: u64) -> bool {
    forall|i: int|
        0 <= i < values.len() ==> is_visible(#[trigger] values[i]) && line_says(values[i], n)
}

/// Whether every element of a list is this number.
pub open spec fn line_says(line: Seq<u8>, n: u64) -> bool {
    forall|j: int|
        0 <= j < list_items(line).len() ==> number(#[trigger] list_items(line)[j]) == Some(n)
}

/// The length that some `content-length` values agree on.
pub open spec fn agreed_length(values: Seq<Seq<u8>>) -> Option<u64> {
    if values.len() > 0 && exists|n: u64| all_say(values, n) {
        Some(choose|n: u64| all_say(values, n))
    } else {
        None
    }
}

/// Whether the last element of a `transfer-encoding` value is `chunked`.
pub open spec fn ends_chunked(value: Seq<u8>) -> bool {
    is_visible(value) && same_ignoring_case(list_items(value).last(), ascii("chunked"@))
}

/// Whether the last of some `transfer-encoding` values ends in `chunked`.
pub open spec fn encodings_chunked(values: Seq<Seq<u8>>) -> bool {
    values.len() > 0 && ends_chunked(values.last())
}

/// What `chunked` adds to a list.
pub open spec fn chunked_suffix() -> Seq<u8> {
    ascii(", chunked"@)
}

/// Whether a `connection` value asks to keep the connection.
pub open spec fn asks_to_keep(value: Seq<u8>) -> bool {
    lists_option(value, ascii("keep-alive"@))
}

/// Whether a `connection` value asks to close the connection.
pub open spec fn asks_to_close(value: Seq<u8>) -> bool {
    lists_option(value, ascii("close"@))
}

/// Whether the body of a request with a method of this text has a defined meaning.
pub open spec fn body_has_meaning(method: Seq<u8>) -> bool {
    !(method == ascii("GET"@) || method == ascii("HEAD"@) || method == ascii("DELETE"@) || method
        == ascii("CONNECT"@))
}

/// Whether a `connection` header asks to keep the connection.
pub fn connection_keep_alive(value: &HeaderValue) -> (r: bool)
    ensures
        r == asks_to_keep(value_bytes(*value)),
{
    proof {
        reveal_strlit("keep-alive");
        lemma_ascii_bytes("keep-alive");
    }
    connection_has(value, "keep-alive".as_bytes())
}

/// Whether a `connection` header asks to close the connection.
pub fn connection_close(value: &HeaderValue) -> (r: bool)
    ensures
        r == asks_to_close(value_bytes(*value)),
{
    proof {
        reveal_strlit("close");
        lemma_ascii_bytes("close");
    }
    connection_has(value, "close".as_bytes())
}

fn connection_has(value: &HeaderValue, needle: &[u8]) -> (r: bool)
    ensures
        r == lists_option(value_bytes(*value), needle@),
{
    if let Ok(s) = value.to_str() {
        proof {
            lemma_ascii_bytes(s);
        }
        let items: Vec<&[u8]> = split_list(s.as_bytes());
        let ghost list = list_items(value_bytes(*value));
        let mut i: usize = 0;
        while i < items.len()
            invariant
                i <= items.len(),
                items@.map_values(|p: &[u8]| p@) == list,
                list == list_items(value_bytes(*value)),
                is_visible(value_bytes(*value)),
                forall|j: int| 0 <= j < i ==> !same_ignoring_case(#[trigger] list[j], needle@),
            decreases items.len() - i,
        {
            assert(items@.map_values(|p: &[u8]| p@)[i as int] == list[i as int]);
            if eq_ignore_case(items[i], needle) {
                assert(same_ignoring_case(list[i as int], needle@));
                return true;
            }
            i = i + 1;
        }
        assert(items@.map_values(|p: &[u8]| p@).len() == list.len());
    }
    false
}

/// The number in a `content-length` value.
pub fn content_length_parse(value: &HeaderValue) -> (n: Option<u64>)
    ensures
        n == number(value_bytes(*value)),
{
    from_digits(value.as_bytes())
}

/// The length that the `content-length` fields of a message agree on.
pub fn content_length_parse_all(headers: &HeaderMap) -> (n: Option<u64>)
    ensures
        n == agreed_length(values_at(headers_of(*headers), ascii("content-length"@))),
{
    let name = content_length_name();
    let values: Vec<&HeaderValue> = headers_get_all(headers, &name);
    content_length_parse_all_values(&values)
}

/// The length that some `content-length` values agree on: all of them must be
/// lists of numbers, and all numbers the same.
pub fn content_length_parse_all_values(values: &Vec<&HeaderValue>) -> (n: Option<u64>)
    ensures
        n == agreed_length(value_texts(values@)),
{
    let ghost lines = value_texts(values@);
    let mut content_length: Option<u64> = None;
    let mut i: usize = 0;
    while i < values.len()
        invariant
            i <= values.len(),
            lines == value_texts(values@),
            content_length is Some <==> i > 0,
            content_length is Some ==> all_say(lines.take(i as int), content_length->0),
        decreases values.len() - i,
    {
        let ghost line = lines[i as int];
        assert(line == value_bytes(*values@[i as int]));
        let text = match values[i].to_str() {
            Ok(text) => text,
            Err(_) => {
                proof {
                    lemma_bad_line(lines, i as int);
                }
                return None;
            },
        };
        proof {
            lemma_ascii_bytes(text);
            lemma_list_not_empty(line);
        }
        let items: Vec<&[u8]> = split_list(text.as_bytes());
        let ghost list = list_items(line);
        let mut j: usize = 0;
        let ghost before = content_length;
        assert(items@.map_values(|p: &[u8]| p@).len() == list.len());
        while j < items.len()
            invariant
                j <= items.len(),
                items.len() == list.len(),
                items@.map_values(|p: &[u8]| p@) == list,
                list == list_items(line),
                0 <= i < lines.len(),
                lines.len() == values.len(),
                lines == value_texts(values@),
                line == lines[i as int],
                is_visible(line),
                list.len() > 0,
                content_length is Some <==> i > 0 || j > 0,
                content_length is Some ==> all_say(lines.take(i as int), content_length->0),
                content_length is Some ==> forall|k: int|
                    0 <= k < j ==> number(#[trigger] list[k]) == Some(content_length->0),
            decreases items.len() - j,
        {
            assert(items@.map_values(|p: &[u8]| p@)[j as int] == list[j as int]);
            match from_digits(items[j]) {
                Some(n) => match content_length {
                    None => {
                        content_length = Some(n);
                    },
                    Some(m) => {
                        if m != n {
                            proof {
                                lemma_disagreement(lines, i as int, j as int, m);
                            }
                            return None;
                        }
                    },
                },
                None => {
                    proof {
                        lemma_bad_item(lines, i as int, j as int);
                    }
                    return None;
                },
            }
            j = j + 1;
        }
        proof {
            let n = content_length->0;
            let now = lines.take(i + 1);
            assert forall|k: int| 0 <= k < now.len() implies is_visible(#[trigger] now[k])
                && line_says(now[k], n) by {
                if k < i {
                    assert(now[k] == lines.take(i as int)[k]);
                } else {
                    assert(now[k] == line);
                }
            }
        }
        i = i + 1;
    }
    assert(lines.take(i as int) =~= lines);
    proof {
        if content_length is Some {
            lemma_agreed(lines, content_length->0);
        }
    }
    content_length
}

proof fn lemma_agreed(lines: Seq<Seq<u8>>, n: u64)
    requires
        lines.len() > 0,
        all_say(lines, n),
    ensures
        agreed_length(lines) == Some(n),
{
    let m = choose|m: u64| all_say(lines, m);
    assert(all_say(lines, m));
    assert(line_says(lines[0], n) && line_says(lines[0], m));
    lemma_list_not_empty(lines[0]);
    assert(number(list_items(lines[0])[0]) == Some(n));
}

proof fn lemma_bad_line(lines: Seq<Seq<u8>>, i: int)
    requires
        0 <= i < lines.len(),
        !is_visible(lines[i]),
    ensures
        agreed_length(lines) is None,
{
    if exists|n: u64| all_say(lines, n) {
        let n = choose|n: u64| all_say(lines, n);
        assert(is_visible(lines[i]));
    }
}

proof fn lemma_bad_item(lines: Seq<Seq<u8>>, i: int, j: int)
    requires
        0 <= i < lines.len(),
        0 <= j < list_items(lines[i]).len(),
        number(list_items(lines[i])[j]) is None,
    ensures
        agreed_length(lines) is None,
{
    if exists|n: u64| all_say(lines, n) {
        let n = choose|n: u64| all_say(lines, n);
        assert(line_says(lines[i], n));
        assert(number(list_items(lines[i])[j]) == Some(n));
    }
}

proof fn lemma_disagreement(lines: Seq<Seq<u8>>, i: int, j: int, m: u64)
    requires
        0 <= i < lines.len(),
        0 <= j < list_items(lines[i]).len(),
        number(list_items(lines[i])[j]) != Some(m),
        i > 0 ==> all_say(lines.take(i), m),
        i == 0 ==> j > 0 && number(list_items(lines[0])[0]) == Some(m),
    ensures
        agreed_length(lines) is None,
{
    if exists|n: u64| all_say(lines, n) {
        let n = choose|n: u64| all_say(lines, n);
        assert(line_says(lines[i], n));
        assert(number(list_items(lines[i])[j]) == Some(n));
        if i > 0 {
            let first = lines.take(i)[0];
            assert(first == lines[0]);
            assert(line_says(first, m));
            assert(line_says(lines[0], n));
            lemma_list_not_empty(lines[0]);
            assert(number(list_items(lines[0])[0]) == Some(m));
        } else {
            assert(number(list_items(lines[0])[0]) == Some(n));
        }
    }
}

/// Whether the body of a request with this method has a defined meaning.
pub fn method_has_defined_payload_semantics(method: &Method) -> (r: bool)
    ensures
        r == body_has_meaning(method_text(*method)),
{
    proof {
        reveal_strlit("GET");
        reveal_strlit("HEAD");
        reveal_strlit("DELETE");
        reveal_strlit("CONNECT");
        lemma_ascii_bytes("GET");
        lemma_ascii_bytes("HEAD");
        lemma_ascii_bytes("DELETE");
        lemma_ascii_bytes("CONNECT");
    }
    let text: &[u8] = method_bytes(method);
    !(eq_bytes(text, "GET".as_bytes()) || eq_bytes(text, "HEAD".as_bytes()) || eq_bytes(
        text,
        "DELETE".as_bytes(),
    ) || eq_bytes(text, "CONNECT".as_bytes()))
}

/// Sets `content-length` where the message has none, and says whether there was
/// room for it.
pub fn set_content_length_if_missing(headers: &mut HeaderMap, len: u64) -> (fits: bool)
    ensures
        has_room(headers_of(*old(headers))) ==> fits,
        headers_of(*final(headers)) == changed_if(
            fits,
            headers_of(*old(headers)),
            filled_in(
                headers_of(*old(headers)),
                ascii("content-length"@),
                ascii(decimal(len as nat)),
            ),
        ),
{
    headers_or_insert(headers, content_length_name(), value_from_number(len))
}

/// Whether the `transfer-encoding` of a message ends in `chunked`.
pub fn transfer_encoding_is_chunked(headers: &HeaderMap) -> (r: bool)
    ensures
        r == encodings_chunked(values_at(headers_of(*headers), ascii("transfer-encoding"@))),
{
    let name = transfer_encoding_name();
    let values: Vec<&HeaderValue> = headers_get_all(headers, &name);
    is_chunked(&values)
}

/// Whether the last of some `transfer-encoding` values ends in `chunked`, which
/// must always be the last encoding.
pub fn is_chunked(encodings: &Vec<&HeaderValue>) -> (r: bool)
    ensures
        r == encodings_chunked(value_texts(encodings@)),
{
    let n: usize = encodings.len();
    if n > 0 {
        assert(value_texts(encodings@).last() == value_bytes(*encodings@[n - 1]));
        return is_chunked_(encodings[n - 1]);
    }
    false
}

/// Whether the last element of a `transfer-encoding` value is `chunked`.
pub fn is_chunked_(value: &HeaderValue) -> (r: bool)
    ensures
        r == ends_chunked(value_bytes(*value)),
{
    if let Ok(s) = value.to_str() {
        proof {
            lemma_ascii_bytes(s);
            lemma_list_not_empty(value_bytes(*value));
            reveal_strlit("chunked");
            lemma_ascii_bytes("chunked");
        }
        let items: Vec<&[u8]> = split_list(s.as_bytes());
        let ghost list = list_items(value_bytes(*value));
        assert(items@.map_values(|p: &[u8]| p@).len() == list.len());
        let last: usize = items.len() - 1;
        assert(items@.map_values(|p: &[u8]| p@)[last as int] == list.last());
        return eq_ignore_case(items[last], "chunked".as_bytes());
    }
    false
}

/// The `transfer-encoding` values after `chunked` was added to them.
pub open spec fn with_chunked(values: Seq<Seq<u8>>) -> Seq<Seq<u8>> {
    if values.len() > 0 {
        values.drop_last().push(values.last() + chunked_suffix())
    } else {
        seq![ascii("chunked"@)]
    }
}

/// Adds `chunked` to the last `transfer-encoding` value of a message, or as its
/// only one, and says whether there was room for it. The longer value must be one
/// that can be allocated.
pub fn add_chunked(headers: &mut HeaderMap) -> (fits: bool)
    requires
        with_chunked(
            values_at(headers_of(*old(headers)), ascii("transfer-encoding"@)),
        ).last().len() <= isize::MAX,
    ensures
        has_room(headers_of(*old(headers))) ==> fits,
        headers_of(*final(headers)) == changed_if(
            fits,
            headers_of(*old(headers)),
            headers_of(*old(headers)).insert(
                ascii("transfer-encoding"@),
                with_chunked(values_at(headers_of(*old(headers)), ascii("transfer-encoding"@))),
            ),
        ),
{
    let name = transfer_encoding_name();
    let mut buf: BytesMut;
    let found: bool;
    proof {
        reveal_strlit(", ");
        reveal_strlit(", chunked");
        reveal_strlit("chunked");
        lemma_ascii_bytes(", ");
        lemma_ascii_bytes("chunked");
        assert(ascii(", "@) + ascii("chunked"@) =~= chunked_suffix());
    }
    {
        let values: Vec<&HeaderValue> = headers_get_all(headers, &name);
        let n: usize = values.len();
        if n > 0 {
            let ghost texts = value_texts(values@);
            assert(texts.last() == value_bytes(*values@[n - 1]));
            assert(with_chunked(texts).last() == texts.last() + chunked_suffix());
            let line: &[u8] = values[n - 1].as_bytes();
            buf = BytesMut::with_capacity(0);
            buf.extend_from_slice(line);
            buf.extend_from_slice(", ".as_bytes());
            buf.extend_from_slice("chunked".as_bytes());
            found = true;
            proof {
                assert(content_mut(buf) =~= texts.last() + chunked_suffix());
                lemma_chunked_value(texts.last());
            }
        } else {
            buf = BytesMut::with_capacity(0);
            buf.extend_from_slice("chunked".as_bytes());
            found = false;
            assert(content_mut(buf) =~= ascii("chunked"@));
            assert(values@.len() == 0);
        }
    }
    let value = value_from_shared(buf.freeze()).unwrap();
    if found {
        headers_set_last(headers, name, value)
    } else {
        headers_insert(headers, name, value)
    }
}

proof fn lemma_chunked_value(line: Seq<u8>)
    requires
        is_header_value(line),
    ensures
        is_header_value(line + chunked_suffix()),
{
    reveal_strlit(", chunked");
    let s = line + chunked_suffix();
    assert forall|i: int| 0 <= i < s.len() implies is_value_byte(#[trigger] s[i]) by {
        if i < line.len() {
            assert(s[i] == line[i]);
        } else {
            assert(s[i] == chunked_suffix()[i - line.len()]);
        }
    }
}

// ----- laws -----

/// Some `content-length` values agree on a length exactly when there are any and
/// all of them say it.
pub proof fn law_agreed_length(values: Seq<Seq<u8>>, n: u64)
    ensures
        agreed_length(values) == Some(n) <==> values.len() > 0 && all_say(values, n),
{
    if values.len() > 0 && all_say(values, n) {
        lemma_agreed(values, n);
    }
}

/// The order and the number of repetitions of `content-length` values do not
/// matter: one more that says the agreed length changes nothing.
pub proof fn law_repeated_length(values: Seq<Seq<u8>>, line: Seq<u8>, n: u64)
    requires
        agreed_length(values) == Some(n),
        is_visible(line),
    ensures
        agreed_length(values.push(line)) == (if line_says(line, n) {
            Some(n)
        } else {
            None::<u64>
        }),
{
    law_agreed_length(values, n);
    let more = values.push(line);
    if line_says(line, n) {
        assert forall|i: int| 0 <= i < more.len() implies is_visible(#[trigger] more[i])
            && line_says(more[i], n) by {
            if i < values.len() {
                assert(more[i] == values[i]);
            }
        }
        lemma_agreed(more, n);
    } else {
        if exists|m: u64| all_say(more, m) {
            let m = choose|m: u64| all_say(more, m);
            assert(more[0] == values[0]);
            assert(line_says(more[0], m));
            lemma_list_not_empty(values[0]);
            assert(number(list_items(values[0])[0]) == Some(m));
            assert(line_says(values[0], n));
            assert(number(list_items(values[0])[0]) == Some(n));
            assert(more[values.len() as int] == line);
            assert(line_says(line, m));
        }
    }
}

/// The case of letters does not matter in a `connection` header, neither in its
/// value nor in the option that is looked for.
pub proof fn law_connection_ignores_case(
    value: Seq<u8>,
    other: Seq<u8>,
    option: Seq<u8>,
    same: Seq<u8>,
)
    requires
        same_ignoring_case(value, other),
        same_ignoring_case(option, same),
    ensures
        lists_option(value, option) == lists_option(other, same),
{
    if lists_option(value, option) {
        lemma_lists_option_ignores_case(value, other, option, same);
    }
    if lists_option(other, same) {
        assert forall|i: int| 0 <= i < other.len() implies lower(#[trigger] other[i]) == lower(
            value[i],
        ) by {
            assert(lower(value[i]) == lower(other[i]));
        }
        assert forall|i: int| 0 <= i < same.len() implies lower(#[trigger] same[i]) == lower(
            option[i],
        ) by {
            assert(lower(option[i]) == lower(same[i]));
        }
        lemma_lists_option_ignores_case(other, value, same, option);
    }
}

proof fn lemma_lists_option_ignores_case(
    value: Seq<u8>,
    other: Seq<u8>,
    option: Seq<u8>,
    same: Seq<u8>,
)
    requires
        same_ignoring_case(value, other),
        same_ignoring_case(option, same),
        lists_option(value, option),
    ensures
        lists_option(other, same),
{
    assert forall|i: int| 0 <= i < other.len() implies is_visible_ascii(#[trigger] other[i]) by {
        assert(is_visible_ascii(value[i]));
        assert(lower(value[i]) == lower(other[i]));
    }
    lemma_list_items_ignore_case(value, other);
    let i = choose|i: int|
        0 <= i < list_items(value).len() && same_ignoring_case(
            #[trigger] list_items(value)[i],
            option,
        );
    let item = list_items(value)[i];
    let twin = list_items(other)[i];
    assert(same_ignoring_case(item, twin));
    assert forall|j: int| 0 <= j < twin.len() implies lower(#[trigger] twin[j]) == lower(
        same[j],
    ) by {
        assert(lower(item[j]) == lower(twin[j]));
        assert(lower(item[j]) == lower(option[j]));
        assert(lower(option[j]) == lower(same[j]));
    }
    assert(same_ignoring_case(twin, same));
}

proof fn lemma_trimmed_fixed(s: Seq<u8>)
    requires
        s.len() > 0 ==> s[0] != 32 && s[0] != 9 && s.last() != 32 && s.last() != 9,
    ensures
        trimmed(s) == s,
{
}

/// A length that was set in a header is the length that is read from it.
pub proof fn law_set_length_reads_back(len: u64)
    ensures
        agreed_length(seq![ascii(decimal(len as nat))]) == Some(len),
{
    let line = ascii(decimal(len as nat));
    law_decimal_reads_back(len);
    assert(all_digits(line));
    assert forall|i: int| 0 <= i < line.len() implies is_visible_ascii(#[trigger] line[i]) by {
        assert(is_digit(line[i]));
    }
    assert forall|i: int| 0 <= i < line.len() implies line[i] != 44 by {
        assert(is_digit(line[i]));
    }
    lemma_single_piece(line);
    assert(is_digit(line[0]) && is_digit(line[line.len() - 1]));
    lemma_trimmed_fixed(line);
    assert(list_items(line) =~= seq![line]);
    assert(all_say(seq![line], len));
    lemma_agreed(seq![line], len);
}

/// Once `chunked` was added, a message's `transfer-encoding` ends in `chunked`,
/// whenever the value that it was added to is visible ASCII.
pub proof fn law_added_chunked_is_chunked(values: Seq<Seq<u8>>)
    requires
        values.len() > 0 ==> is_visible(values.last()),
    ensures
        encodings_chunked(with_chunked(values)),
{
    reveal_strlit("chunked");
    reveal_strlit(", chunked");
    let word = ascii("chunked"@);
    assert forall|j: int| 0 <= j < word.len() implies word[j] != 44 by {}
    if values.len() > 0 {
        let line = values.last();
        let tail = seq![32u8] + word;
        let s = line + chunked_suffix();
        assert(chunked_suffix() =~= seq![44u8] + tail);
        assert(s =~= line.push(44) + tail);
        lemma_pieces_join(line, tail);
        assert forall|j: int| 0 <= j < tail.len() implies tail[j] != 44 by {
            if j > 0 {
                assert(tail[j] == word[j - 1]);
            }
        }
        lemma_single_piece(tail);
        assert(tail.skip(1) =~= word);
        assert(trim_start(word) == word);
        assert(trim_start(tail) == word);
        assert(trim_end(word) == word);
        assert(trimmed(tail) == word);
        assert(pieces(s).last() == tail);
        assert(list_items(s).last() == word);
        assert forall|i: int| 0 <= i < s.len() implies is_visible_ascii(#[trigger] s[i]) by {
            if i < line.len() {
                assert(s[i] == line[i]);
            } else {
                assert(s[i] == chunked_suffix()[i - line.len()]);
            }
        }
        assert(with_chunked(values).last() == s);
    } else {
        lemma_single_piece(word);
        lemma_trimmed_fixed(word);
        assert(list_items(word) =~= seq![word]);
        assert(is_visible(word));
        assert(with_chunked(values).last() == word);
    }
}

/// A list has an option exactly when one of two parts of it, between which a comma (44)
/// stands, has it: every element counts, wherever it stands.
pub proof fn law_option_in_either_part(a: Seq<u8>, b: Seq<u8>, option: Seq<u8>)
    requires
        is_visible(a),
        is_visible(b),
    ensures
        lists_option(a + seq![44u8] + b, option) <==> lists_option(a, option) || lists_option(
            b,
            option,
        ),
{
    law_lists_join(a, b);
    let s = a + seq![44u8] + b;
    assert forall|i: int| 0 <= i < s.len() implies is_visible_ascii(#[trigger] s[i]) by {
        if i < a.len() {
            assert(s[i] == a[i]);
        } else if i > a.len() {
            assert(s[i] == b[i - a.len() - 1]);
        }
    }
    let (x, y) = (list_items(a), list_items(b));
    if lists_option(a, option) {
        let i = choose|i: int|
            0 <= i < x.len() && same_ignoring_case(#[trigger] x[i], option);
        assert(list_items(s)[i] == x[i]);
    }
    if lists_option(b, option) {
        let i = choose|i: int|
            0 <= i < y.len() && same_ignoring_case(#[trigger] y[i], option);
        assert(list_items(s)[x.len() + i] == y[i]);
    }
    if lists_option(s, option) {
        let i = choose|i: int|
            0 <= i < list_items(s).len() && same_ignoring_case(
                #[trigger] list_items(s)[i],
                option,
            );
        if i < x.len() {
            assert(same_ignoring_case(x[i], option));
        } else {
            assert(same_ignoring_case(y[i - x.len()], option));
        }
    }
}

/// A single element, which may stand between spaces (32) and tabs (9), is an option
/// exactly when it is made of the same letters, whatever their case.
pub proof fn law_option_alone(
    left: Seq<u8>,
    middle: Seq<u8>,
    right: Seq<u8>,
    option: Seq<u8>,
)
    requires
        forall|i: int| 0 <= i < left.len() ==> #[trigger] left[i] == 32 || left[i] == 9,
        forall|i: int| 0 <= i < right.len() ==> #[trigger] right[i] == 32 || right[i] == 9,
        forall|i: int|
            0 <= i < middle.len() ==> 32 <= #[trigger] middle[i] && middle[i] <= 126 && middle[i]
                != 44,
        middle.len() > 0 ==> middle[0] != 32 && middle.last() != 32,
    ensures
        lists_option(left + middle + right, option) <==> middle.len() == option.len() && forall|
            i: int,
        |
            0 <= i < middle.len() ==> #[trigger] middle[i] == option[i] || (65 <= middle[i]
                && middle[i] <= 90 && option[i] == middle[i] + 32) || (65 <= option[i]
                && option[i] <= 90 && middle[i] == option[i] + 32),
{
    let s = left + middle + right;
    assert forall|i: int| 0 <= i < s.len() implies is_visible_ascii(#[trigger] s[i]) by {
        if i < left.len() {
            assert(s[i] == left[i]);
        } else if i < left.len() + middle.len() {
            assert(s[i] == middle[i - left.len()]);
        } else {
            assert(s[i] == right[i - left.len() - middle.len()]);
        }
    }
    law_list_of_one(left, middle, right);
    law_same_ignoring_case(middle, option);
    assert(list_items(s)[0] == middle);
}

/// A value with a byte that is neither a tab (9) nor from space (32) to tilde (126) has
/// no option.
pub proof fn law_no_option_beyond_ascii(value: Seq<u8>, option: Seq<u8>, i: int)
    requires
        0 <= i < value.len(),
        value[i] != 9,
        value[i] < 32 || value[i] > 126,
    ensures
        !lists_option(value, option),
{
    assert(!is_visible_ascii(value[i]));
}

/// No values agree on no length; two parts of some values agree on a length together
/// exactly when each of them agrees on it.
pub proof fn law_lengths_agree_together(a: Seq<Seq<u8>>, b: Seq<Seq<u8>>)
    requires
        a.len() > 0,
        b.len() > 0,
    ensures
        agreed_length(Seq::empty()) is None,
        agreed_length(a + b) == (if agreed_length(a) == agreed_length(b) {
            agreed_length(a)
        } else {
            None::<u64>
        }),
{
    let s = a + b;
    if agreed_length(s) is Some {
        let n = agreed_length(s)->0;
        law_agreed_length(s, n);
        assert forall|i: int| 0 <= i < a.len() implies is_visible(#[trigger] a[i]) && line_says(
            a[i],
            n,
        ) by {
            assert(s[i] == a[i]);
        }
        assert forall|i: int| 0 <= i < b.len() implies is_visible(#[trigger] b[i]) && line_says(
            b[i],
            n,
        ) by {
            assert(s[a.len() + i] == b[i]);
        }
        law_agreed_length(a, n);
        law_agreed_length(b, n);
    }
    if agreed_length(a) is Some && agreed_length(a) == agreed_length(b) {
        let n = agreed_length(a)->0;
        law_agreed_length(a, n);
        law_agreed_length(b, n);
        assert forall|i: int| 0 <= i < s.len() implies is_visible(#[trigger] s[i]) && line_says(
            s[i],
            n,
        ) by {
            if i < a.len() {
                assert(s[i] == a[i]);
            } else {
                assert(s[i] == b[i - a.len()]);
            }
        }
        law_agreed_length(s, n);
    }
}

/// A value with a comma (44) in it says what its two parts say as values of their own.
pub proof fn law_length_lists_are_values(a: Seq<u8>, b: Seq<u8>)
    requires
        is_visible(a),
        is_visible(b),
    ensures
        agreed_length(seq![a + seq![44u8] + b]) == agreed_length(seq![a, b]),
{
    let s = a + seq![44u8] + b;
    law_lists_join(a, b);
    lemma_list_not_empty(a);
    lemma_list_not_empty(b);
    let (x, y) = (list_items(a), list_items(b));
    assert forall|i: int| 0 <= i < s.len() implies is_visible_ascii(#[trigger] s[i]) by {
        if i < a.len() {
            assert(s[i] == a[i]);
        } else if i > a.len() {
            assert(s[i] == b[i - a.len() - 1]);
        }
    }
    let one = seq![s];
    let two = seq![a, b];
    if agreed_length(one) is Some {
        let n = agreed_length(one)->0;
        law_agreed_length(one, n);
        assert(line_says(one[0], n));
        assert forall|j: int| 0 <= j < x.len() implies number(#[trigger] x[j]) == Some(n) by {
            assert(list_items(s)[j] == x[j]);
        }
        assert forall|j: int| 0 <= j < y.len() implies number(#[trigger] y[j]) == Some(n) by {
            assert(list_items(s)[x.len() + j] == y[j]);
        }
        assert(all_say(two, n));
        law_agreed_length(two, n);
    }
    if agreed_length(two) is Some {
        let n = agreed_length(two)->0;
        law_agreed_length(two, n);
        assert(line_says(two[0], n) && line_says(two[1], n));
        assert forall|j: int| 0 <= j < list_items(s).len() implies number(
            #[trigger] list_items(s)[j],
        ) == Some(n) by {
            if j < x.len() {
                assert(list_items(s)[j] == x[j]);
            } else {
                assert(list_items(s)[j] == y[j - x.len()]);
            }
        }
        assert(all_say(one, n));
        law_agreed_length(one, n);
    }
}

/// A single element, which may stand between spaces (32) and tabs (9), says the number
/// that it is.
pub proof fn law_length_alone(left: Seq<u8>, middle: Seq<u8>, right: Seq<u8>)
    requires
        forall|i: int| 0 <= i < left.len() ==> #[trigger] left[i] == 32 || left[i] == 9,
        forall|i: int| 0 <= i < right.len() ==> #[trigger] right[i] == 32 || right[i] == 9,
        forall|i: int| 0 <= i < middle.len() ==> #[trigger] middle[i] != 44,
        middle.len() > 0 ==> middle[0] != 32 && middle[0] != 9 && middle.last() != 32
            && middle.last() != 9,
    ensures
        agreed_length(seq![left + middle + right]) == number(middle),
{
    let s = left + middle + right;
    let one = seq![s];
    law_list_of_one(left, middle, right);
    assert(list_items(s)[0] == middle);
    if number(middle) is Some {
        let n = number(middle)->0;
        assert forall|i: int| 0 <= i < s.len() implies is_visible_ascii(#[trigger] s[i]) by {
            if i < left.len() {
                assert(s[i] == left[i]);
            } else if i < left.len() + middle.len() {
                assert(s[i] == middle[i - left.len()]);
                assert(is_digit(middle[i - left.len()]));
            } else {
                assert(s[i] == right[i - left.len() - middle.len()]);
            }
        }
        assert(all_say(one, n));
        law_agreed_length(one, n);
    }
    if agreed_length(one) is Some {
        let n = agreed_length(one)->0;
        law_agreed_length(one, n);
        assert(line_says(one[0], n));
    }
}

/// The elements of some values, one value after the other.
pub open spec fn elements(values: Seq<Seq<u8>>) -> Seq<Seq<u8>>
    decreases values.len(),
{
    if values.len() == 0 {
        Seq::empty()
    } else {
        elements(values.drop_last()) + list_items(values.last())
    }
}

/// The word `chunked`.
pub open spec fn chunked_word() -> Seq<u8> {
    seq![99u8, 104, 117, 110, 107, 101, 100]
}

/// The encodings of a message to which `chunked` was added are those that it had, in
/// their order, and then `chunked`. No value is lost, and none but the last is changed:
/// what the last one was, it still begins with.
pub proof fn law_added_chunked_comes_last(values: Seq<Seq<u8>>)
    ensures
        elements(with_chunked(values)) == elements(values).push(chunked_word()),
        with_chunked(values).len() == (if values.len() == 0 {
            1
        } else {
            values.len()
        }),
        forall|i: int|
            0 <= i < values.len() - 1 ==> #[trigger] with_chunked(values)[i] == values[i],
        values.len() > 0 ==> values.last().is_prefix_of(with_chunked(values).last()),
{
    reveal_strlit("chunked");
    reveal_strlit(", chunked");
    let word = chunked_word();
    let none: Seq<u8> = Seq::empty();
    assert(ascii("chunked"@) =~= word);
    assert forall|j: int| 0 <= j < word.len() implies #[trigger] word[j] != 44 by {}
    law_list_of_one(none, word, none);
    assert(none + word + none =~= word);
    let now = with_chunked(values);
    if values.len() > 0 {
        let line = values.last();
        let space = seq![32u8];
        law_list_of_one(space, word, none);
        assert(space + word + none =~= space + word);
        assert(line + chunked_suffix() =~= line + seq![44u8] + (space + word));
        law_lists_join(line, space + word);
        assert(now.drop_last() =~= values.drop_last());
        assert(elements(now) =~= elements(values).push(word));
    } else {
        assert(now.drop_last() =~= Seq::<Seq<u8>>::empty());
        assert(elements(now.drop_last()) =~= Seq::<Seq<u8>>::empty());
        assert(elements(now) =~= elements(values).push(word));
    }
}

/// Whether a message is chunked is said by the last of its values alone, and there by
/// what stands behind the last comma (44).
pub proof fn law_chunked_is_said_last(values: Seq<Seq<u8>>, a: Seq<u8>, b: Seq<u8>)
    requires
        is_visible(a),
    ensures
        !encodings_chunked(Seq::empty()),
        encodings_chunked(values.push(b)) <==> encodings_chunked(seq![b]),
        encodings_chunked(values.push(a + seq![44u8] + b)) <==> encodings_chunked(seq![b]),
{
    let s = a + seq![44u8] + b;
    law_lists_join(a, b);
    lemma_list_not_empty(b);
    assert(list_items(s).last() == list_items(b).last());
    if is_visible(b) {
        assert forall|i: int| 0 <= i < s.len() implies is_visible_ascii(#[trigger] s[i]) by {
            if i < a.len() {
                assert(s[i] == a[i]);
            } else if i > a.len() {
                assert(s[i] == b[i - a.len() - 1]);
            }
        }
    } else {
        let i = choose|i: int| 0 <= i < b.len() && !is_visible_ascii(#[trigger] b[i]);
        assert(s[a.len() + 1 + i] == b[i]);
    }
}

/// A single element, which may stand between spaces (32) and tabs (9), says that a
/// message is chunked exactly when it is that word, whatever the case of its letters.
pub proof fn law_chunked_alone(left: Seq<u8>, middle: Seq<u8>, right: Seq<u8>)
    requires
        forall|i: int| 0 <= i < left.len() ==> #[trigger] left[i] == 32 || left[i] == 9,
        forall|i: int| 0 <= i < right.len() ==> #[trigger] right[i] == 32 || right[i] == 9,
        forall|i: int|
            0 <= i < middle.len() ==> 32 <= #[trigger] middle[i] && middle[i] <= 126 && middle[i]
                != 44,
        middle.len() > 0 ==> middle[0] != 32 && middle.last() != 32,
    ensures
        encodings_chunked(seq![left + middle + right]) <==> middle.len() == 7 && forall|i: int|
            0 <= i < middle.len() ==> #[trigger] middle[i] == chunked_word()[i] || middle[i] + 32
                == chunked_word()[i],
{
    reveal_strlit("chunked");
    assert(ascii("chunked"@) =~= chunked_word());
    let s = left + middle + right;
    assert forall|i: int| 0 <= i < s.len() implies is_visible_ascii(#[trigger] s[i]) by {
        if i < left.len() {
            assert(s[i] == left[i]);
        } else if i < left.len() + middle.len() {
            assert(s[i] == middle[i - left.len()]);
        } else {
            assert(s[i] == right[i - left.len() - middle.len()]);
        }
    }
    law_list_of_one(left, middle, right);
    law_same_ignoring_case(middle, chunked_word());
    assert(list_items(s).last() == middle);
    assert(seq![s].last() == s);
}

/// A `content-length` that is there stays as it is; where there is none, there is one
/// then, with this number, and all other headers stay.
pub proof fn law_content_length_is_kept(
    m: Map<Seq<u8>, Seq<Seq<u8>>>,
    name: Seq<u8>,
    other: Seq<u8>,
    len: u64,
)
    ensures
        m.dom().contains(name) ==> filled_in(m, name, ascii(decimal(len as nat))) == m,
        !m.dom().contains(name) ==> values_at(
            filled_in(m, name, ascii(decimal(len as nat))),
            name,
        ) == seq![ascii(decimal(len as nat))],
        other != name ==> values_at(filled_in(m, name, ascii(decimal(len as nat))), other)
            == values_at(m, other),
{
}

/// A change takes place exactly where there is room for it; and there is room wherever a
/// message has fewer than 6554 names.
pub proof fn law_room(
    fits: bool,
    before: Map<Seq<u8>, Seq<Seq<u8>>>,
    change: Map<Seq<u8>, Seq<Seq<u8>>>,
)
    ensures
        fits ==> changed_if(fits, before, change) == change,
        !fits ==> changed_if(fits, before, change) == before,
        has_room(before) <==> before.dom().finite() && before.dom().len() < 6554,
{
}

/// What is said of values is said of the bytes of each.
pub proof fn law_bytes_of_values(values: Seq<&HeaderValue>, i: int)
    requires
        0 <= i < values.len(),
    ensures
        value_texts(values).len() == values.len(),
        value_texts(values)[i] == value_bytes(*values[i]),
{
}

/// The options that are looked for are these letters: `keep-alive` and `close`.
pub proof fn law_options_that_are_looked_for(value: Seq<u8>)
    ensures
        asks_to_keep(value) <==> lists_option(
            value,
            seq![107u8, 101, 101, 112, 45, 97, 108, 105, 118, 101],
        ),
        asks_to_close(value) <==> lists_option(value, seq![99u8, 108, 111, 115, 101]),
{
    reveal_strlit("keep-alive");
    reveal_strlit("close");
    assert(ascii("keep-alive"@) =~= seq![107u8, 101, 101, 112, 45, 97, 108, 105, 118, 101]);
    assert(ascii("close"@) =~= seq![99u8, 108, 111, 115, 101]);
}

/// The body of a request has no defined meaning exactly with the methods GET, HEAD,
/// DELETE and CONNECT, in these letters.
pub proof fn law_methods_without_a_body(method: Seq<u8>)
    ensures
        !body_has_meaning(method) <==> {
            ||| method == seq![71u8, 69, 84]
            ||| method == seq![72u8, 69, 65, 68]
            ||| method == seq![68u8, 69, 76, 69, 84, 69]
            ||| method == seq![67u8, 79, 78, 78, 69, 67, 84]
        },
{
    reveal_strlit("GET");
    reveal_strlit("HEAD");
    reveal_strlit("DELETE");
    reveal_strlit("CONNECT");
    assert(ascii("GET"@) =~= seq![71u8, 69, 84]);
    assert(ascii("HEAD"@) =~= seq![72u8, 69, 65, 68]);
    assert(ascii("DELETE"@) =~= seq![68u8, 69, 76, 69, 84, 69]);
    assert(ascii("CONNECT"@) =~= seq![67u8, 79, 78, 78, 69, 67, 84]);
}

} // verus!
