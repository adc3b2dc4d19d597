//! ASCII text as it stands in header fields: decimal numbers, comma-separated
//! lists, and comparison without regard to case.

use vstd::prelude::*;
use vstd::slice::slice_subrange;
use vstd::string::{StringExecFns, StringSliceAdditionalSpecFns};

verus! {

/// The bytes of an ASCII text.
pub open spec fn ascii(text: Seq<char>) -> Seq<u8> {
    text.map_values(|c: char| c as u8)
}

// ----- decimal numbers -----

/// Whether a byte is a decimal digit.
pub open spec fn is_digit(b: u8) -> bool {
    48 <= b <= 57
}

/// Whether a text is made of decimal digits only.
pub open spec fn all_digits(s: Seq<u8>) -> bool {
    forall|i: int| 0 <= i < s.len() ==> is_digit(#[trigger] s[i])
}

/// The number that a row of decimal digits stands for.
pub open spec fn digits_value(s: Seq<u8>) -> int
    decreases s.len(),
{
    if s.len() == 0 {
        0
    } else {
        digits_value(s.drop_last()) * 10 + (s.last() - 48)
    }
}

/// The 64-bit number that a text stands for: some digits, nothing else, and not
/// too many.
pub open spec fn number(s: Seq<u8>) -> Option<u64> {
    if s.len() > 0 && all_digits(s) && digits_value(s) <= u64::MAX {
        Some(digits_value(s) as u64)
    } else {
        None
    }
}

/// The digit of a value below ten.
pub open spec fn digit_char(d: int) -> char {
    (48 + d) as u8 as char
}

/// A number in decimal digits, without leading zeros.
pub open spec fn decimal(n: nat) -> Seq<char>
    decreases n,
{
    if n < 10 {
        seq![digit_char(n as int)]
    } else {
        decimal(n / 10).push(digit_char((n % 10) as int))
    }
}

/// A number in decimal, with a minus sign where it is negative.
pub open spec fn signed_decimal(n: int) -> Seq<char> {
    if n < 0 {
        seq!['-'] + decimal((-n) as nat)
    } else {
        decimal(n as nat)
    }
}

/// The number of digits never makes a value smaller.
proof fn lemma_digits_value_grows(s: Seq<u8>, k: int)
    requires
        0 <= k <= s.len(),
        all_digits(s),
    ensures
        0 <= digits_value(s.take(k)) <= digits_value(s),
    decreases s.len() - k,
{
    lemma_digits_value_nonneg(s.take(k));
    if k < s.len() {
        let t = s.take(k + 1);
        assert(t.drop_last() =~= s.take(k));
        assert(t.last() == s[k]);
        assert(is_digit(s[k]));
        lemma_digits_value_grows(s, k + 1);
    } else {
        assert(s.take(k) =~= s);
    }
}

proof fn lemma_digits_value_nonneg(s: Seq<u8>)
    requires
        all_digits(s),
    ensures
        0 <= digits_value(s),
    decreases s.len(),
{
    if s.len() > 0 {
        let t = s.drop_last();
        assert forall|i: int| 0 <= i < t.len() implies is_digit(#[trigger] t[i]) by {
            assert(t[i] == s[i]);
        }
        lemma_digits_value_nonneg(t);
        assert(is_digit(s[s.len() - 1]));
    }
}

/// Reads a row of decimal digits; no sign, no space, no overflow.
pub fn from_digits(bytes: &[u8]) -> (n: Option<u64>)
    ensures
        n == number(bytes@),
{
    if bytes.len() == 0 {
        return None;
    }
    let mut result: u64 = 0;
    let mut i: usize = 0;
    assert(bytes@.take(0) =~= Seq::<u8>::empty());
    while i < bytes.len()
        invariant
            i <= bytes.len(),
            bytes.len() > 0,
            forall|j: int| 0 <= j < i ==> is_digit(#[trigger] bytes@[j]),
            result == digits_value(bytes@.take(i as int)),
        decreases bytes.len() - i,
    {
        let b: u8 = bytes[i];
        if b < 48 || b > 57 {
            assert(!is_digit(bytes@[i as int]));
            return None;
        }
        proof {
            let t = bytes@.take(i + 1);
            assert(t.drop_last() =~= bytes@.take(i as int));
            assert(t.last() == b);
            assert(digits_value(t) == result * 10 + (b - 48));
            if all_digits(bytes@) {
                lemma_digits_value_grows(bytes@, i + 1);
            }
        }
        result =
        match result.checked_mul(10) {
            Some(r) => r,
            None => {
                return None;
            },
        };
        let d: u8 = b - 48;
        result =
        match result.checked_add(d as u64) {
            Some(r) => r,
            None => {
                return None;
            },
        };
        i = i + 1;
    }
    assert(bytes@.take(i as int) =~= bytes@);
    Some(result)
}

/// Writes a number in decimal.
pub fn decimal_text(n: u64) -> (text: String)
    ensures
        text@ == decimal(n as nat),
    decreases n,
{
    let d: u64 = n % 10;
    let digit: &str = digit_text(d);
    if n < 10 {
        String::from_str(digit)
    } else {
        let mut text: String = decimal_text(n / 10);
        text.append(digit);
        assert(text@ =~= decimal(n as nat));
        text
    }
}

fn digit_text(d: u64) -> (text: &'static str)
    requires
        d < 10,
    ensures
        text@ == seq![digit_char(d as int)],
{
    proof {
        reveal_strlit("0");
        reveal_strlit("1");
        reveal_strlit("2");
        reveal_strlit("3");
        reveal_strlit("4");
        reveal_strlit("5");
        reveal_strlit("6");
        reveal_strlit("7");
        reveal_strlit("8");
        reveal_strlit("9");
    }
    let text: &'static str = match d {
        0 => "0",
        1 => "1",
        2 => "2",
        3 => "3",
        4 => "4",
        5 => "5",
        6 => "6",
        7 => "7",
        8 => "8",
        _ => "9",
    };
    assert(text@ =~= seq![digit_char(d as int)]);
    text
}

/// Writes a signed number in decimal.
pub fn signed_decimal_text(n: i64) -> (text: String)
    ensures
        text@ == signed_decimal(n as int),
{
    if n >= 0 {
        decimal_text(n as u64)
    } else {
        proof {
            reveal_strlit("-");
        }
        let mut text: String = String::from_str("-");
        let m: u64 = if n == i64::MIN { 9223372036854775808u64 } else { (-n) as u64 };
        let digits: String = decimal_text(m);
        text.append(digits.as_str());
        assert(text@ =~= signed_decimal(n as int));
        text
    }
}

/// Reading back a number that was written in decimal gives the same number.
pub proof fn law_decimal_reads_back(n: u64)
    ensures
        number(ascii(decimal(n as nat))) == Some(n),
{
    lemma_decimal(n as nat);
}

proof fn lemma_decimal(n: nat)
    ensures
        ascii(decimal(n)).len() > 0,
        all_digits(ascii(decimal(n))),
        digits_value(ascii(decimal(n))) == n,
    decreases n,
{
    let s = ascii(decimal(n));
    if n < 10 {
        assert(s =~= seq![(48 + n) as u8]);
        assert(s.drop_last() =~= Seq::<u8>::empty());
        assert(s.last() == 48 + n);
        assert(digits_value(s.drop_last()) == 0);
    } else {
        lemma_decimal(n / 10);
        let t = ascii(decimal(n / 10));
        let d = (48 + n % 10) as u8;
        assert(s =~= t.push(d));
        assert(s.drop_last() =~= t);
        assert forall|i: int| 0 <= i < s.len() implies is_digit(#[trigger] s[i]) by {
            if i < t.len() {
                assert(s[i] == t[i]);
            }
        }
    }
}

// ----- lists -----

/// Whether a byte is optional white space: a space or a tab.
pub open spec fn is_ows(b: u8) -> bool {
    b == 32 || b == 9
}

/// A text without white space at its start.
pub open spec fn trim_start(s: Seq<u8>) -> Seq<u8>
    decreases s.len(),
{
    if s.len() > 0 && is_ows(s[0]) {
        trim_start(s.skip(1))
    } else {
        s
    }
}

/// A text without white space at its end.
pub open spec fn trim_end(s: Seq<u8>) -> Seq<u8>
    decreases s.len(),
{
    if s.len() > 0 && is_ows(s.last()) {
        trim_end(s.drop_last())
    } else {
        s
    }
}

/// A text without white space at its two ends.
pub open spec fn trimmed(s: Seq<u8>) -> Seq<u8> {
    trim_end(trim_start(s))
}

/// Takes the white space off the two ends of a text.
pub fn trim(s: &[u8]) -> (r: &[u8])
    ensures
        r@ == trimmed(s@),
{
    let mut start: usize = 0;
    assert(s@.skip(0) =~= s@);
    while start < s.len() && (s[start] == 32 || s[start] == 9)
        invariant
            start <= s.len(),
            trim_start(s@) == trim_start(s@.skip(start as int)),
        decreases s.len() - start,
    {
        assert(s@.skip(start as int).skip(1) =~= s@.skip(start + 1));
        start = start + 1;
    }
    let ghost t = trim_start(s@);
    assert(t == s@.skip(start as int));
    let mut end: usize = s.len();
    assert(s@.subrange(start as int, end as int) =~= t);
    while end > start && (s[end - 1] == 32 || s[end - 1] == 9)
        invariant
            start <= end <= s.len(),
            trim_end(t) == trim_end(s@.subrange(start as int, end as int)),
        decreases end,
    {
        assert(s@.subrange(start as int, end as int).drop_last() =~= s@.subrange(
            start as int,
            end - 1,
        ));
        end = end - 1;
    }
    slice_subrange(s, start, end)
}

/// The position of the first comma, or the length where there is none.
pub open spec fn first_comma(s: Seq<u8>) -> nat
    decreases s.len(),
{
    if s.len() == 0 || s[0] == 44 {
        0
    } else {
        1 + first_comma(s.skip(1))
    }
}

/// The pieces between the commas of a text; always at least one.
pub open spec fn pieces(s: Seq<u8>) -> Seq<Seq<u8>>
    decreases s.len(),
{
    let i = first_comma(s) as int;
    if i < s.len() {
        seq![s.take(i)] + pieces(s.skip(i + 1))
    } else {
        seq![s]
    }
}

/// The elements of a comma-separated list, without the white space round them.
pub open spec fn list_items(s: Seq<u8>) -> Seq<Seq<u8>> {
    pieces(s).map_values(|p: Seq<u8>| trimmed(p))
}

proof fn lemma_first_comma(s: Seq<u8>)
    ensures
        0 <= first_comma(s) <= s.len(),
        first_comma(s) < s.len() ==> s[first_comma(s) as int] == 44,
        forall|j: int| 0 <= j < first_comma(s) ==> s[j] != 44,
    decreases s.len(),
{
    if s.len() == 0 || s[0] == 44 {
    } else {
        lemma_first_comma(s.skip(1));
        assert forall|j: int| 0 <= j < first_comma(s) implies s[j] != 44 by {
            if j > 0 {
                assert(s.skip(1)[j - 1] == s[j]);
            }
        }
    }
}

proof fn lemma_first_comma_unique(s: Seq<u8>, i: int)
    requires
        0 <= i <= s.len(),
        i < s.len() ==> s[i] == 44,
        forall|j: int| 0 <= j < i ==> s[j] != 44,
    ensures
        first_comma(s) == i,
{
    lemma_first_comma(s);
    let k = first_comma(s) as int;
    if k < i {
        assert(s[k] != 44);
    }
}

/// Every element is a trimmed piece, so there are as many.
proof fn lemma_list_items_cons(s: Seq<u8>)
    ensures
        first_comma(s) < s.len() ==> list_items(s) =~= seq![trimmed(s.take(first_comma(s) as int))]
            + list_items(s.skip(first_comma(s) as int + 1)),
        first_comma(s) >= s.len() ==> list_items(s) =~= seq![trimmed(s)],
        list_items(s).len() > 0,
{
    lemma_first_comma(s);
    let i = first_comma(s) as int;
    let f = |p: Seq<u8>| trimmed(p);
    if i < s.len() {
        let rest = pieces(s.skip(i + 1));
        assert(pieces(s) =~= seq![s.take(i)] + rest);
        assert(pieces(s).map_values(f) =~= seq![trimmed(s.take(i))] + rest.map_values(f));
    } else {
        assert(pieces(s) =~= seq![s]);
    }
}

/// The pieces of two texts with a comma between them are the pieces of both.
pub proof fn lemma_pieces_join(a: Seq<u8>, b: Seq<u8>)
    ensures
        pieces(a.push(44) + b) == pieces(a) + pieces(b),
    decreases a.len(),
{
    let s = a.push(44) + b;
    lemma_first_comma(a);
    let i = first_comma(a) as int;
    assert(s[a.len() as int] == 44);
    assert forall|j: int| 0 <= j < i implies s[j] != 44 by {
        assert(s[j] == a[j]);
    }
    if i < a.len() {
        assert(s[i] == a[i]);
        lemma_first_comma_unique(s, i);
        lemma_pieces_join(a.skip(i + 1), b);
        assert(s.take(i) =~= a.take(i));
        assert(s.skip(i + 1) =~= a.skip(i + 1).push(44) + b);
        assert(pieces(s) =~= pieces(a) + pieces(b));
    } else {
        lemma_first_comma_unique(s, i);
        assert(s.take(i) =~= a);
        assert(s.skip(i + 1) =~= b);
        assert(pieces(s) =~= pieces(a) + pieces(b));
    }
}

/// A text without commas is one piece.
pub proof fn lemma_single_piece(s: Seq<u8>)
    requires
        forall|j: int| 0 <= j < s.len() ==> s[j] != 44,
    ensures
        pieces(s) == seq![s],
{
    lemma_first_comma(s);
    if first_comma(s) < s.len() {
        assert(s[first_comma(s) as int] != 44);
    }
}

/// A list has at least one element.
pub proof fn lemma_list_not_empty(s: Seq<u8>)
    ensures
        list_items(s).len() > 0,
{
    lemma_list_items_cons(s);
}

/// Splits a comma-separated list into its elements.
pub fn split_list(s: &[u8]) -> (items: Vec<&[u8]>)
    ensures
        items@.map_values(|p: &[u8]| p@) == list_items(s@),
{
    let mut items: Vec<&[u8]> = Vec::new();
    let mut start: usize = 0;
    let mut i: usize = 0;
    let ghost view = |p: &[u8]| p@;
    assert(s@.skip(0) =~= s@);
    assert(items@.map_values(view) + list_items(s@) =~= list_items(s@));
    while i < s.len()
        invariant
            start <= i <= s.len(),
            forall|j: int| start <= j < i ==> s@[j] != 44,
            view == (|p: &[u8]| p@),
            items@.map_values(view) + list_items(s@.skip(start as int)) == list_items(s@),
        decreases s.len() - i,
    {
        if s[i] == 44 {
            let ghost before = items@;
            items.push(trim(slice_subrange(s, start, i)));
            proof {
                let rest = s@.skip(start as int);
                lemma_first_comma_unique(rest, i - start);
                lemma_list_items_cons(rest);
                assert(rest.take(i - start) =~= s@.subrange(start as int, i as int));
                assert(rest.skip(i - start + 1) =~= s@.skip(i + 1));
                let item = trimmed(s@.subrange(start as int, i as int));
                assert(items@.map_values(view) =~= before.map_values(view).push(item));
                assert(items@.map_values(view) + list_items(s@.skip(i + 1)) =~= before.map_values(
                    view,
                ) + list_items(rest));
            }
            start = i + 1;
        }
        i = i + 1;
    }
    let ghost before = items@;
    items.push(trim(slice_subrange(s, start, i)));
    proof {
        let rest = s@.skip(start as int);
        lemma_first_comma_unique(rest, i - start);
        lemma_list_items_cons(rest);
        assert(rest =~= s@.subrange(start as int, i as int));
        assert(items@.map_values(view) =~= before.map_values(view) + list_items(rest));
    }
    items
}

// ----- comparison -----

/// The lower-case form of an ASCII letter; other bytes stay as they are.
pub open spec fn lower(b: u8) -> u8 {
    if 65 <= b <= 90 {
        (b + 32) as u8
    } else {
        b
    }
}

/// Whether two texts are the same but for the case of ASCII letters.
pub open spec fn same_ignoring_case(a: Seq<u8>, b: Seq<u8>) -> bool {
    a.len() == b.len() && forall|i: int| 0 <= i < a.len() ==> lower(#[trigger] a[i]) == lower(b[i])
}

fn to_lower(b: u8) -> (r: u8)
    ensures
        r == lower(b),
{
    if b >= 65 && b <= 90 {
        b + 32
    } else {
        b
    }
}

/// Compares two texts without regard to the case of ASCII letters.
pub fn eq_ignore_case(a: &[u8], b: &[u8]) -> (r: bool)
    ensures
        r == same_ignoring_case(a@, b@),
{
    if a.len() != b.len() {
        return false;
    }
    let mut i: usize = 0;
    while i < a.len()
        invariant
            i <= a.len(),
            a.len() == b.len(),
            forall|j: int| 0 <= j < i ==> lower(#[trigger] a@[j]) == lower(b@[j]),
        decreases a.len() - i,
    {
        if to_lower(a[i]) != to_lower(b[i]) {
            assert(lower(a@[i as int]) != lower(b@[i as int]));
            return false;
        }
        i = i + 1;
    }
    true
}

proof fn lemma_same_part(a: Seq<u8>, b: Seq<u8>, from: int, to: int)
    requires
        same_ignoring_case(a, b),
        0 <= from <= to <= a.len(),
    ensures
        same_ignoring_case(a.subrange(from, to), b.subrange(from, to)),
{
    let x = a.subrange(from, to);
    let y = b.subrange(from, to);
    assert forall|i: int| 0 <= i < x.len() implies lower(#[trigger] x[i]) == lower(y[i]) by {
        assert(x[i] == a[from + i]);
        assert(y[i] == b[from + i]);
    }
}

proof fn lemma_trim_start_same(a: Seq<u8>, b: Seq<u8>)
    requires
        same_ignoring_case(a, b),
    ensures
        same_ignoring_case(trim_start(a), trim_start(b)),
    decreases a.len(),
{
    if a.len() > 0 {
        assert(lower(a[0]) == lower(b[0]));
        assert(is_ows(a[0]) == is_ows(b[0]));
        if is_ows(a[0]) {
            lemma_same_part(a, b, 1, a.len() as int);
            assert(a.skip(1) =~= a.subrange(1, a.len() as int));
            assert(b.skip(1) =~= b.subrange(1, b.len() as int));
            lemma_trim_start_same(a.skip(1), b.skip(1));
        }
    }
}

proof fn lemma_trim_end_same(a: Seq<u8>, b: Seq<u8>)
    requires
        same_ignoring_case(a, b),
    ensures
        same_ignoring_case(trim_end(a), trim_end(b)),
    decreases a.len(),
{
    if a.len() > 0 {
        let n = a.len() - 1;
        assert(lower(a[n]) == lower(b[n]));
        assert(is_ows(a[n]) == is_ows(b[n]));
        if is_ows(a[n]) {
            lemma_same_part(a, b, 0, n);
            assert(a.drop_last() =~= a.subrange(0, n));
            assert(b.drop_last() =~= b.subrange(0, n));
            lemma_trim_end_same(a.drop_last(), b.drop_last());
        }
    }
}

/// Two lists that are the same but for the case of letters have elements that are
/// the same but for the case of letters.
pub proof fn lemma_list_items_ignore_case(a: Seq<u8>, b: Seq<u8>)
    requires
        same_ignoring_case(a, b),
    ensures
        list_items(a).len() == list_items(b).len(),
        forall|i: int|
            0 <= i < list_items(a).len() ==> same_ignoring_case(
                #[trigger] list_items(a)[i],
                list_items(b)[i],
            ),
    decreases a.len(),
{
    lemma_first_comma(a);
    lemma_list_items_cons(a);
    lemma_list_items_cons(b);
    let k = first_comma(a) as int;
    assert forall|j: int| 0 <= j < k implies b[j] != 44 by {
        assert(lower(a[j]) == lower(b[j]));
        assert(a[j] != 44);
    }
    if k < a.len() {
        assert(lower(a[k]) == lower(b[k]));
        lemma_first_comma_unique(b, k);
        lemma_same_part(a, b, 0, k);
        assert(a.take(k) =~= a.subrange(0, k));
        assert(b.take(k) =~= b.subrange(0, k));
        lemma_same_part(a, b, k + 1, a.len() as int);
        assert(a.skip(k + 1) =~= a.subrange(k + 1, a.len() as int));
        assert(b.skip(k + 1) =~= b.subrange(k + 1, b.len() as int));
        lemma_list_items_ignore_case(a.skip(k + 1), b.skip(k + 1));
        lemma_trim_start_same(a.take(k), b.take(k));
        lemma_trim_end_same(trim_start(a.take(k)), trim_start(b.take(k)));
        assert forall|i: int| 0 <= i < list_items(a).len() implies same_ignoring_case(
            #[trigger] list_items(a)[i],
            list_items(b)[i],
        ) by {
            if i > 0 {
                assert(list_items(a)[i] == list_items(a.skip(k + 1))[i - 1]);
                assert(list_items(b)[i] == list_items(b.skip(k + 1))[i - 1]);
            }
        }
    } else {
        lemma_first_comma_unique(b, k);
        lemma_trim_start_same(a, b);
        lemma_trim_end_same(trim_start(a), trim_start(b));
    }
}

/// Compares two texts byte by byte.
pub fn eq_bytes(a: &[u8], b: &[u8]) -> (r: bool)
    ensures
        r == (a@ == b@),
{
    if a.len() != b.len() {
        return false;
    }
    let mut i: usize = 0;
    while i < a.len()
        invariant
            i <= a.len(),
            a.len() == b.len(),
            forall|j: int| 0 <= j < i ==> a@[j] == b@[j],
        decreases a.len() - i,
    {
        if a[i] != b[i] {
            return false;
        }
        i = i + 1;
    }
    assert(a@ =~= b@);
    true
}

/// The bytes of an ASCII string are its characters.
pub proof fn lemma_ascii_bytes(text: &str)
    requires
        text.is_ascii(),
    ensures
        text.spec_bytes() == ascii(text@),
{
    broadcast use vstd::string::is_ascii_spec_bytes;

    assert(text.spec_bytes() =~= ascii(text@));
}

// ----- laws -----

/// The bytes of an ASCII text are the codes of its characters, one by one.
pub proof fn law_ascii(text: Seq<char>, i: int)
    requires
        0 <= i < text.len(),
    ensures
        ascii(text).len() == text.len(),
        ascii(text)[i] == text[i] as u8,
{
}

/// A text of no bytes is no number, and one byte is a number exactly when it is one of
/// the digits 0 (48) to 9 (57).
pub proof fn law_number_of_one_digit(b: u8)
    ensures
        number(Seq::empty()) is None,
        number(seq![b]) == (if 48 <= b && b <= 57 {
            Some((b - 48) as u64)
        } else {
            None::<u64>
        }),
{
    let s = seq![b];
    assert(s.drop_last() =~= Seq::<u8>::empty());
    assert(digits_value(s.drop_last()) == 0);
    assert(digits_value(s) == b - 48);
    assert(s[0] == b);
    assert(all_digits(s) <==> is_digit(b));
}

/// One more byte makes of a number ten times as much and the digit that it is, as far
/// as 64 bits reach; of what is no number, it makes none.
pub proof fn law_number_of_one_digit_more(s: Seq<u8>, b: u8)
    requires
        s.len() > 0,
    ensures
        number(s.push(b)) == (match number(s) {
            Some(n) => if 48 <= b && b <= 57 && n * 10 + (b - 48) <= u64::MAX {
                Some((n * 10 + (b - 48)) as u64)
            } else {
                None::<u64>
            },
            None => None,
        }),
{
    let more = s.push(b);
    assert(more.drop_last() =~= s);
    assert(more.last() == b);
    if all_digits(more) {
        assert forall|i: int| 0 <= i < s.len() implies is_digit(#[trigger] s[i]) by {
            assert(more[i] == s[i]);
        }
        assert(is_digit(more[s.len() as int]));
        lemma_digits_value_nonneg(s);
    } else if all_digits(s) {
        if is_digit(b) {
            assert forall|i: int| 0 <= i < more.len() implies is_digit(#[trigger] more[i]) by {
                if i < s.len() {
                    assert(more[i] == s[i]);
                }
            }
        }
    }
    if all_digits(s) && is_digit(b) {
        assert forall|i: int| 0 <= i < more.len() implies is_digit(#[trigger] more[i]) by {
            if i < s.len() {
                assert(more[i] == s[i]);
            }
        }
    }
}

/// A number in decimal has no zero in front, but for zero itself, and is made of as
/// many digits as it takes.
pub proof fn law_decimal_has_no_leading_zero(n: nat)
    ensures
        decimal(n).len() > 0,
        n < 10 <==> decimal(n).len() == 1,
        n > 0 ==> decimal(n)[0] != '0',
        n == 0 ==> decimal(n) == seq!['0'],
        forall|i: int| 0 <= i < decimal(n).len() ==> '0' <= #[trigger] decimal(n)[i] <= '9',
    decreases n,
{
    if n >= 10 {
        law_decimal_has_no_leading_zero(n / 10);
        let front = decimal(n / 10);
        assert(decimal(n)[0] == front[0]);
        assert forall|i: int| 0 <= i < decimal(n).len() implies '0' <= #[trigger] decimal(n)[i]
            <= '9' by {
            if i < front.len() {
                assert(decimal(n)[i] == front[i]);
            }
        }
    } else if n == 0 {
        assert(decimal(n) =~= seq!['0']);
    }
}

/// A negative number in decimal is its opposite behind a minus sign; any other is
/// written without a sign.
pub proof fn law_signs(n: nat)
    ensures
        signed_decimal(n as int) == decimal(n),
        n > 0 ==> signed_decimal(-(n as int)) == seq!['-'] + decimal(n),
{
}

/// What is left when the white space is taken off is what stands between spaces (32)
/// and tabs (9): nothing else is taken off, and no more than those at the two ends.
pub proof fn law_trimmed(left: Seq<u8>, middle: Seq<u8>, right: Seq<u8>)
    requires
        forall|i: int| 0 <= i < left.len() ==> #[trigger] left[i] == 32 || left[i] == 9,
        forall|i: int| 0 <= i < right.len() ==> #[trigger] right[i] == 32 || right[i] == 9,
        middle.len() > 0 ==> middle[0] != 32 && middle[0] != 9 && middle.last() != 32
            && middle.last() != 9,
    ensures
        trimmed(left + middle + right) == middle,
{
    let s = left + middle + right;
    if middle.len() == 0 {
        lemma_all_ows(s);
        assert(middle =~= Seq::<u8>::empty());
    } else {
        lemma_trim_left(left, middle + right);
        assert(s =~= left + (middle + right));
        assert((middle + right)[0] == middle[0]);
        assert(trim_start(middle + right) == middle + right);
        lemma_trim_right(middle, right);
        assert(trim_end(middle) == middle);
    }
}

proof fn lemma_all_ows(s: Seq<u8>)
    requires
        forall|i: int| 0 <= i < s.len() ==> #[trigger] s[i] == 32 || s[i] == 9,
    ensures
        trimmed(s) == Seq::<u8>::empty(),
    decreases s.len(),
{
    if s.len() > 0 {
        assert(is_ows(s[0]));
        let rest = s.skip(1);
        assert forall|i: int| 0 <= i < rest.len() implies #[trigger] rest[i] == 32 || rest[i]
            == 9 by {
            assert(rest[i] == s[i + 1]);
        }
        lemma_all_ows(rest);
    } else {
        assert(s =~= Seq::<u8>::empty());
    }
}

proof fn lemma_trim_left(left: Seq<u8>, rest: Seq<u8>)
    requires
        forall|i: int| 0 <= i < left.len() ==> #[trigger] left[i] == 32 || left[i] == 9,
    ensures
        trim_start(left + rest) == trim_start(rest),
    decreases left.len(),
{
    if left.len() > 0 {
        let more = left.skip(1);
        assert forall|i: int| 0 <= i < more.len() implies #[trigger] more[i] == 32 || more[i]
            == 9 by {
            assert(more[i] == left[i + 1]);
        }
        assert((left + rest)[0] == left[0]);
        assert((left + rest).skip(1) =~= more + rest);
        lemma_trim_left(more, rest);
    } else {
        assert(left + rest =~= rest);
    }
}

proof fn lemma_trim_right(front: Seq<u8>, right: Seq<u8>)
    requires
        forall|i: int| 0 <= i < right.len() ==> #[trigger] right[i] == 32 || right[i] == 9,
    ensures
        trim_end(front + right) == trim_end(front),
    decreases right.len(),
{
    if right.len() > 0 {
        let less = right.drop_last();
        assert forall|i: int| 0 <= i < less.len() implies #[trigger] less[i] == 32 || less[i]
            == 9 by {
            assert(less[i] == right[i]);
        }
        assert((front + right).last() == right[right.len() - 1]);
        assert((front + right).drop_last() =~= front + less);
        lemma_trim_right(front, less);
    } else {
        assert(front + right =~= front);
    }
}

/// The elements of two lists with a comma (44) between them are the elements of the
/// first and then those of the second.
pub proof fn law_lists_join(a: Seq<u8>, b: Seq<u8>)
    ensures
        list_items(a + seq![44u8] + b) == list_items(a) + list_items(b),
{
    lemma_pieces_join(a, b);
    assert(a + seq![44u8] + b =~= a.push(44) + b);
    let f = |p: Seq<u8>| trimmed(p);
    assert((pieces(a) + pieces(b)).map_values(f) =~= pieces(a).map_values(f) + pieces(
        b,
    ).map_values(f));
}

/// A text without a comma (44) is a list of one element: itself, without the spaces
/// (32) and tabs (9) at its two ends.
pub proof fn law_list_of_one(left: Seq<u8>, middle: Seq<u8>, right: Seq<u8>)
    requires
        forall|i: int| 0 <= i < left.len() ==> #[trigger] left[i] == 32 || left[i] == 9,
        forall|i: int| 0 <= i < right.len() ==> #[trigger] right[i] == 32 || right[i] == 9,
        forall|i: int| 0 <= i < middle.len() ==> #[trigger] middle[i] != 44,
        middle.len() > 0 ==> middle[0] != 32 && middle[0] != 9 && middle.last() != 32
            && middle.last() != 9,
    ensures
        list_items(left + middle + right) == seq![middle],
{
    let s = left + middle + right;
    assert forall|j: int| 0 <= j < s.len() implies s[j] != 44 by {
        if j < left.len() {
            assert(s[j] == left[j]);
        } else if j < left.len() + middle.len() {
            assert(s[j] == middle[j - left.len()]);
        } else {
            assert(s[j] == right[j - left.len() - middle.len()]);
        }
    }
    lemma_single_piece(s);
    law_trimmed(left, middle, right);
    assert(list_items(s) =~= seq![middle]);
}

/// The lower-case forms of the letters A (65) to Z (90) are a (97) to z (122); every
/// other byte is its own lower-case form.
pub proof fn law_lower(b: u8)
    ensures
        65 <= b && b <= 90 ==> lower(b) == b + 32 && 97 <= lower(b) && lower(b) <= 122,
        b < 65 || b > 90 ==> lower(b) == b,
{
}

/// Two texts are the same without regard to case exactly when they are as long as each
/// other and their bytes are the same one by one, or the two cases of one letter.
pub proof fn law_same_ignoring_case(a: Seq<u8>, b: Seq<u8>)
    ensures
        same_ignoring_case(a, b) <==> a.len() == b.len() && forall|i: int|
            0 <= i < a.len() ==> #[trigger] a[i] == b[i] || (65 <= a[i] && a[i] <= 90 && b[i]
                == a[i] + 32) || (65 <= b[i] && b[i] <= 90 && a[i] == b[i] + 32),
{
    if same_ignoring_case(a, b) {
        assert forall|i: int| 0 <= i < a.len() implies #[trigger] a[i] == b[i] || (65 <= a[i]
            && a[i] <= 90 && b[i] == a[i] + 32) || (65 <= b[i] && b[i] <= 90 && a[i] == b[i]
            + 32) by {
            assert(lower(a[i]) == lower(b[i]));
        }
    }
}

} // verus!
