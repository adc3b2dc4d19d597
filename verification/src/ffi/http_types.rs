//! Messages and headers of the C interface.

use bytes::Bytes;
use http::header::{HeaderMap, HeaderName, HeaderValue};
use http::{Method, StatusCode, Uri, Version};
use vstd::prelude::*;
use vstd::slice::slice_to_vec;

use crate::body::incoming::Incoming;
use crate::common::ascii::ascii;
use crate::ext::h1_reason_phrase::ReasonPhrase;
use crate::ext::header_case::HeaderCaseMap;
use crate::ext::header_order::{
    count_name, counts_up, law_order_counts_up, law_order_finds_values, law_order_has_each, map_of,
    order_append, order_insert, order_of, order_texts, OriginalHeaderOrder,
};
use crate::ffi::body::hyper_body;
use crate::ffi::error::hyper_code;
use crate::outside::bytes_crate::{bytes_slice, content};
use crate::outside::http_crate::{
    appended, are_names_of, canonical_reason, has_room, headers_append, headers_clone,
    headers_get_all, headers_insert, headers_keys, headers_new, headers_of, inserted,
    is_header_name, is_header_value, is_tchar, is_token, is_value_byte, lowered, method_get,
    method_text, name_bytes, name_clone, name_same, name_text, name_texts, no_headers, part_text,
    run_texts, status_code, status_number, status_reason, uri_build, uri_default, uri_from_parts,
    uri_of, uri_parse, uri_text, value_bytes, value_texts, values_at, version_code,
    version_http_10, version_http_11, version_http_2, version_number,
};

verus! {

/// No HTTP version in particular.
pub const HYPER_HTTP_VERSION_NONE: i32 = 0;

/// HTTP/1.0.
pub const HYPER_HTTP_VERSION_1_0: i32 = 10;

/// HTTP/1.1.
pub const HYPER_HTTP_VERSION_1_1: i32 = 11;

/// HTTP/2.
pub const HYPER_HTTP_VERSION_2: i32 = 20;

// ----- headers -----

/// The headers of a message, their original spellings, and their order.
#[derive(Debug)]
pub struct hyper_headers {
    /// The values under each name.
    pub headers: HeaderMap,
    /// The original spellings of the names.
    pub orig_casing: HeaderCaseMap,
    /// The order in which the headers came.
    pub orig_order: OriginalHeaderOrder,
}

/// What headers hold.
pub struct HeadersView {
    /// The values under each name.
    pub values: Map<Seq<u8>, Seq<Seq<u8>>>,
    /// The original spellings of each name.
    pub cases: Map<Seq<u8>, Seq<Seq<u8>>>,
    /// The order in which the headers came.
    pub order: Seq<(Seq<u8>, nat)>,
}

impl HeadersView {
    /// No headers.
    pub open spec fn empty() -> HeadersView {
        HeadersView { values: no_headers(), cases: no_headers(), order: Seq::empty() }
    }

    /// The headers of a message, with their spellings and their order as far as they
    /// are known.
    pub open spec fn wrapped(
        values: Map<Seq<u8>, Seq<Seq<u8>>>,
        cases: Option<Map<Seq<u8>, Seq<Seq<u8>>>>,
        order: Option<Seq<(Seq<u8>, nat)>>,
    ) -> HeadersView {
        HeadersView {
            values,
            cases: match cases {
                Some(cases) => cases,
                None => no_headers(),
            },
            order: match order {
                Some(order) => order,
                None => Seq::empty(),
            },
        }
    }

    /// One more header.
    pub open spec fn add(self, name: Seq<u8>, value: Seq<u8>) -> HeadersView {
        let key = lowered(name);
        HeadersView {
            values: appended(self.values, key, value),
            cases: appended(self.cases, key, name),
            order: order_append(self.order, key),
        }
    }

    /// A header in place of all of its name.
    pub open spec fn set(self, name: Seq<u8>, value: Seq<u8>) -> HeadersView {
        let key = lowered(name);
        HeadersView {
            values: inserted(self.values, key, value),
            cases: inserted(self.cases, key, name),
            order: order_insert(self.order, key),
        }
    }

    /// Whether one more name surely fits.
    pub open spec fn has_room(self) -> bool {
        has_room(self.values) && has_room(self.cases)
    }

    /// Whether these are the headers after a change for which there was no room: they
    /// are as before, but the new values may be there.
    pub open spec fn cut_short(self, before: HeadersView, change: HeadersView) -> bool {
        &&& self.values == before.values || self.values == change.values
        &&& self.cases == before.cases
        &&& self.order == before.order
    }

    /// The original spelling of a header; the lower-case name where it is not
    /// known.
    pub open spec fn spelling(self, name: Seq<u8>, idx: nat) -> Seq<u8> {
        if idx < values_at(self.cases, name).len() {
            values_at(self.cases, name)[idx as int]
        } else {
            name
        }
    }

    /// The headers that some entries of the order name; an entry whose header is not
    /// there is passed over.
    pub open spec fn in_order(self, order: Seq<(Seq<u8>, nat)>) -> Seq<(Seq<u8>, Seq<u8>)>
        decreases order.len(),
    {
        if order.len() == 0 {
            Seq::empty()
        } else {
            let (name, idx) = order[0];
            if idx < values_at(self.values, name).len() {
                seq![(self.spelling(name, idx), values_at(self.values, name)[idx as int])]
                    + self.in_order(order.skip(1))
            } else {
                self.in_order(order.skip(1))
            }
        }
    }

    /// The headers of a name.
    pub open spec fn of_name(self, name: Seq<u8>) -> Seq<(Seq<u8>, Seq<u8>)> {
        let values = values_at(self.values, name);
        Seq::new(values.len(), |i: int| (self.spelling(name, i as nat), values[i]))
    }

    /// The headers of some names, one name after the other.
    pub open spec fn of_names(self, names: Seq<Seq<u8>>) -> Seq<(Seq<u8>, Seq<u8>)>
        decreases names.len(),
    {
        if names.len() == 0 {
            Seq::empty()
        } else {
            self.of_names(names.drop_last()) + self.of_name(names.last())
        }
    }

    /// Whether an order names each of the headers.
    pub open spec fn named_by(self, order: Seq<(Seq<u8>, nat)>) -> bool {
        forall|name: Seq<u8>, k: nat|
            k < values_at(self.values, name).len() ==> #[trigger] order.contains((name, k))
    }

    /// Whether a list goes through the headers: in their order where it is known of
    /// each of them, and else name by name.
    pub open spec fn listed(self, pairs: Seq<(Seq<u8>, Seq<u8>)>) -> bool {
        if self.order.len() > 0 && self.named_by(self.order) {
            pairs == self.in_order(self.order)
        } else {
            exists|names: Seq<Seq<u8>>| #[trigger]
                are_names_of(names, self.values) && pairs == self.of_names(names)
        }
    }
}

/// The bytes of some pairs.
pub open spec fn pair_texts(pairs: Seq<(Vec<u8>, Vec<u8>)>) -> Seq<(Seq<u8>, Seq<u8>)> {
    pairs.map_values(|p: (Vec<u8>, Vec<u8>)| (p.0@, p.1@))
}

/// Whether bytes make a header.
pub open spec fn is_header(name: Seq<u8>, value: Seq<u8>) -> bool {
    is_header_name(name) && is_header_value(value)
}

/// Whether the entry for one of the headers of a name is among some entries.
fn has_entry(entries: &Vec<(HeaderName, usize)>, name: &HeaderName, k: usize) -> (r: bool)
    ensures
        r == order_texts(entries@).contains((name_text(*name), k as nat)),
{
    let ghost order = order_texts(entries@);
    let mut i: usize = 0;
    while i < entries.len()
        invariant
            i <= entries.len(),
            order == order_texts(entries@),
            forall|j: int| 0 <= j < i ==> #[trigger] order[j] != (name_text(*name), k as nat),
        decreases entries.len() - i,
    {
        assert(order[i as int] == (name_text(entries@[i as int].0), entries@[i as int].1 as nat));
        if entries[i].1 == k && name_same(&entries[i].0, name) {
            return true;
        }
        i = i + 1;
    }
    false
}

/// The name and the value of a header, and the name as it was written.
fn raw_name_value(name: &[u8], value: &[u8]) -> (r: std::result::Result<
    (HeaderName, HeaderValue, Bytes),
    hyper_code,
>)
    ensures
        r is Ok <==> is_header(name@, value@),
        r is Err ==> r->Err_0 == hyper_code::HYPERE_INVALID_ARG,
        r is Ok ==> {
            &&& name_text(r->Ok_0.0) == lowered(name@)
            &&& value_bytes(r->Ok_0.1) == value@
            &&& content(r->Ok_0.2) == name@
        },
{
    let orig_name: Bytes = Bytes::copy_from_slice(name);
    let name: HeaderName = match HeaderName::from_bytes(name) {
        Ok(name) => name,
        Err(_) => {
            return Err(hyper_code::HYPERE_INVALID_ARG);
        },
    };
    let value: HeaderValue = match HeaderValue::from_bytes(value) {
        Ok(value) => value,
        Err(_) => {
            return Err(hyper_code::HYPERE_INVALID_ARG);
        },
    };
    Ok((name, value, orig_name))
}

impl View for hyper_headers {
    type V = HeadersView;

    open spec fn view(&self) -> HeadersView {
        HeadersView {
            values: headers_of(self.headers),
            cases: self.orig_casing@,
            order: self.orig_order@,
        }
    }
}

impl Clone for hyper_headers {
    fn clone(&self) -> (r: hyper_headers)
        ensures
            r@ == self@,
    {
        hyper_headers {
            headers: headers_clone(&self.headers),
            orig_casing: self.orig_casing.clone(),
            orig_order: self.orig_order.clone(),
        }
    }
}

impl Default for hyper_headers {
    fn default() -> (r: hyper_headers)
        ensures
            r@ == HeadersView::empty(),
    {
        hyper_headers {
            headers: headers_new(),
            orig_casing: HeaderCaseMap::default(),
            orig_order: OriginalHeaderOrder::default(),
        }
    }
}

impl hyper_headers {
    /// Sets a header in place of all of its name. It is an error where there is no
    /// room for it.
    pub fn set(&mut self, name: &[u8], value: &[u8]) -> (code: hyper_code)
        ensures
            code == hyper_code::HYPERE_INVALID_ARG <==> !is_header(name@, value@),
            code == hyper_code::HYPERE_INVALID_ARG ==> final(self)@ == old(self)@,
            is_header(name@, value@) && old(self)@.has_room() ==> code == hyper_code::HYPERE_OK,
            code == hyper_code::HYPERE_OK ==> final(self)@ == old(self)@.set(name@, value@),
            code == hyper_code::HYPERE_ERROR ==> final(self)@.cut_short(
                old(self)@,
                old(self)@.set(name@, value@),
            ),
            code == hyper_code::HYPERE_OK || code == hyper_code::HYPERE_INVALID_ARG || code
                == hyper_code::HYPERE_ERROR,
    {
        match raw_name_value(name, value) {
            Ok((name, value, orig_name)) => {
                if headers_insert(&mut self.headers, name_clone(&name), value)
                    && self.orig_casing.insert(name_clone(&name), orig_name) {
                    self.orig_order.insert(name);
                    hyper_code::HYPERE_OK
                } else {
                    hyper_code::HYPERE_ERROR
                }
            },
            Err(code) => code,
        }
    }

    /// Adds a header behind those of its name. It is an error where there is no room
    /// for it.
    pub fn add(&mut self, name: &[u8], value: &[u8]) -> (code: hyper_code)
        ensures
            code == hyper_code::HYPERE_INVALID_ARG <==> !is_header(name@, value@),
            code == hyper_code::HYPERE_INVALID_ARG ==> final(self)@ == old(self)@,
            is_header(name@, value@) && old(self)@.has_room() ==> code == hyper_code::HYPERE_OK,
            code == hyper_code::HYPERE_OK ==> final(self)@ == old(self)@.add(name@, value@),
            code == hyper_code::HYPERE_ERROR ==> final(self)@.cut_short(
                old(self)@,
                old(self)@.add(name@, value@),
            ),
            code == hyper_code::HYPERE_OK || code == hyper_code::HYPERE_INVALID_ARG || code
                == hyper_code::HYPERE_ERROR,
    {
        match raw_name_value(name, value) {
            Ok((name, value, orig_name)) => {
                if headers_append(&mut self.headers, name_clone(&name), value)
                    && self.orig_casing.append(name_clone(&name), orig_name) {
                    self.orig_order.append(name);
                    hyper_code::HYPERE_OK
                } else {
                    hyper_code::HYPERE_ERROR
                }
            },
            Err(code) => code,
        }
    }

    /// The original spelling of a header; the lower-case name where it is not
    /// known.
    fn spelled(&self, name: &HeaderName, idx: usize) -> (s: Vec<u8>)
        ensures
            s@ == self@.spelling(name_text(*name), idx as nat),
    {
        let spellings: Vec<&Bytes> = self.orig_casing.get_all(name);
        assert(run_texts(spellings@).len() == spellings.len());
        if idx < spellings.len() {
            assert(run_texts(spellings@)[idx as int] == content(*spellings@[idx as int]));
            slice_to_vec(bytes_slice(spellings[idx]))
        } else {
            slice_to_vec(name_bytes(name))
        }
    }

    /// The headers with their names as they were written, in the order in which
    /// they came, or name by name where that is not known of each of them.
    pub fn pairs(&self) -> (pairs: Vec<(Vec<u8>, Vec<u8>)>)
        ensures
            self@.listed(pair_texts(pairs@)),
    {
        let entries: &Vec<(HeaderName, usize)> = self.orig_order.get_in_order();
        assert(order_texts(entries@).len() == entries.len());
        if entries.len() > 0 && self.is_named_by(entries) {
            self.pairs_in_order(entries)
        } else {
            self.pairs_by_name()
        }
    }

    /// Whether an order names each of the headers.
    fn is_named_by(&self, entries: &Vec<(HeaderName, usize)>) -> (r: bool)
        ensures
            r == self@.named_by(order_texts(entries@)),
    {
        let ghost order = order_texts(entries@);
        let ghost view = self@;
        let keys: Vec<&HeaderName> = headers_keys(&self.headers);
        let ghost names = name_texts(keys@);
        let mut a: usize = 0;
        while a < keys.len()
            invariant
                a <= keys.len(),
                order == order_texts(entries@),
                view == self@,
                names == name_texts(keys@),
                forall|b: int, k: nat|
                    0 <= b < a && k < values_at(view.values, names[b]).len()
                        ==> #[trigger] order.contains((names[b], k)),
            decreases keys.len() - a,
        {
            let values: Vec<&HeaderValue> = headers_get_all(&self.headers, keys[a]);
            assert(value_texts(values@).len() == values.len());
            assert(names[a as int] == name_text(*keys@[a as int]));
            let mut k: usize = 0;
            while k < values.len()
                invariant
                    k <= values.len(),
                    a < keys.len(),
                    order == order_texts(entries@),
                    view == self@,
                    names == name_texts(keys@),
                    names[a as int] == name_text(*keys@[a as int]),
                    values.len() == values_at(view.values, names[a as int]).len(),
                    forall|l: nat| l < k ==> #[trigger] order.contains((names[a as int], l)),
                decreases values.len() - k,
            {
                if !has_entry(entries, keys[a], k) {
                    assert(!order.contains((names[a as int], k as nat)));
                    return false;
                }
                k = k + 1;
            }
            a = a + 1;
        }
        assert forall|name: Seq<u8>, k: nat|
            k < values_at(view.values, name).len() implies #[trigger] order.contains((name, k)) by {
            assert(names.contains(name));
            let b = choose|b: int| 0 <= b < names.len() && names[b] == name;
            assert(order.contains((names[b], k)));
        }
        true
    }

    fn pairs_in_order(&self, entries: &Vec<(HeaderName, usize)>) -> (pairs: Vec<(Vec<u8>, Vec<u8>)>)
        ensures
            pair_texts(pairs@) == self@.in_order(order_texts(entries@)),
    {
        let ghost order = order_texts(entries@);
        let ghost view = self@;
        let mut pairs: Vec<(Vec<u8>, Vec<u8>)> = Vec::new();
        let mut i: usize = 0;
        assert(order.skip(0) =~= order);
        assert(pair_texts(pairs@) + view.in_order(order) =~= view.in_order(order));
        while i < entries.len()
            invariant
                i <= entries.len(),
                order == order_texts(entries@),
                view == self@,
                pair_texts(pairs@) + view.in_order(order.skip(i as int)) == view.in_order(order),
            decreases entries.len() - i,
        {
            let name: &HeaderName = &entries[i].0;
            let idx: usize = entries[i].1;
            let ghost rest = order.skip(i as int);
            assert(rest[0] == (name_text(*name), idx as nat));
            let values: Vec<&HeaderValue> = headers_get_all(&self.headers, name);
            assert(value_texts(values@).len() == values.len());
            assert(rest.skip(1) =~= order.skip(i + 1));
            if idx < values.len() {
                assert(value_texts(values@)[idx as int] == value_bytes(*values@[idx as int]));
                let value: Vec<u8> = slice_to_vec(values[idx].as_bytes());
                let ghost before = pair_texts(pairs@);
                let spelled: Vec<u8> = self.spelled(name, idx);
                let ghost pair = (spelled@, value@);
                pairs.push((spelled, value));
                proof {
                    assert(pair_texts(pairs@) =~= before.push(pair));
                    assert(before.push(pair) + view.in_order(rest.skip(1)) =~= before + (seq![pair]
                        + view.in_order(rest.skip(1))));
                }
            }
            i = i + 1;
        }
        assert(order.skip(i as int) =~= Seq::<(Seq<u8>, nat)>::empty());
        assert(pair_texts(pairs@) =~= view.in_order(order));
        pairs
    }

    fn pairs_by_name(&self) -> (pairs: Vec<(Vec<u8>, Vec<u8>)>)
        ensures
            exists|names: Seq<Seq<u8>>| #[trigger]
                are_names_of(names, self@.values) && pair_texts(pairs@) == self@.of_names(names),
    {
        let keys: Vec<&HeaderName> = headers_keys(&self.headers);
        let ghost names = name_texts(keys@);
        let ghost view = self@;
        let mut pairs: Vec<(Vec<u8>, Vec<u8>)> = Vec::new();
        let mut i: usize = 0;
        assert(names.take(0) =~= Seq::<Seq<u8>>::empty());
        assert(pair_texts(pairs@) =~= view.of_names(names.take(0)));
        while i < keys.len()
            invariant
                i <= keys.len(),
                names == name_texts(keys@),
                view == self@,
                pair_texts(pairs@) == view.of_names(names.take(i as int)),
            decreases keys.len() - i,
        {
            let name: &HeaderName = keys[i];
            let ghost before = pair_texts(pairs@);
            let values: Vec<&HeaderValue> = headers_get_all(&self.headers, name);
            let ghost key = name_text(*name);
            assert(value_texts(values@).len() == values.len());
            let mut j: usize = 0;
            assert(before + view.of_name(key).take(0) =~= before);
            while j < values.len()
                invariant
                    j <= values.len(),
                    view == self@,
                    key == name_text(*name),
                    value_texts(values@) == values_at(view.values, key),
                    value_texts(values@).len() == values.len(),
                    pair_texts(pairs@) == before + view.of_name(key).take(j as int),
                decreases values.len() - j,
            {
                assert(value_texts(values@)[j as int] == value_bytes(*values@[j as int]));
                let value: Vec<u8> = slice_to_vec(values[j].as_bytes());
                let spelled: Vec<u8> = self.spelled(name, j);
                let ghost pair = (spelled@, value@);
                let ghost soon = pair_texts(pairs@);
                pairs.push((spelled, value));
                proof {
                    assert(pair_texts(pairs@) =~= soon.push(pair));
                    assert(view.of_name(key)[j as int] == pair);
                    assert(view.of_name(key).take(j + 1) =~= view.of_name(key).take(j as int).push(
                        pair,
                    ));
                    assert(pair_texts(pairs@) =~= before + view.of_name(key).take(j + 1));
                }
                j = j + 1;
            }
            proof {
                assert(view.of_name(key).take(j as int) =~= view.of_name(key));
                let now = names.take(i + 1);
                assert(now.drop_last() =~= names.take(i as int));
                assert(now.last() == key);
            }
            i = i + 1;
        }
        assert(names.take(i as int) =~= names);
        assert(are_names_of(names, view.values));
        pairs
    }
}

/// Headers after some were added, with the names as they were written.
pub open spec fn added(items: Seq<(Seq<u8>, Seq<u8>)>) -> HeadersView
    decreases items.len(),
{
    if items.len() == 0 {
        HeadersView::empty()
    } else {
        added(items.drop_last()).add(items.last().0, items.last().1)
    }
}

/// Some headers, each with its name in lower case.
pub open spec fn keyed(items: Seq<(Seq<u8>, Seq<u8>)>) -> Seq<(Seq<u8>, Seq<u8>)> {
    items.map_values(|p: (Seq<u8>, Seq<u8>)| (lowered(p.0), p.1))
}

/// The names of some headers, each in lower case and as it was written.
pub open spec fn spelled_keys(items: Seq<(Seq<u8>, Seq<u8>)>) -> Seq<(Seq<u8>, Seq<u8>)> {
    items.map_values(|p: (Seq<u8>, Seq<u8>)| (lowered(p.0), p.0))
}

proof fn lemma_added(items: Seq<(Seq<u8>, Seq<u8>)>)
    ensures
        added(items).values == map_of(keyed(items)),
        added(items).cases == map_of(spelled_keys(items)),
        added(items).order == order_of(keyed(items)),
        added(items).order == order_of(spelled_keys(items)),
    decreases items.len(),
{
    if items.len() > 0 {
        lemma_added(items.drop_last());
        assert(keyed(items).drop_last() =~= keyed(items.drop_last()));
        assert(spelled_keys(items).drop_last() =~= spelled_keys(items.drop_last()));
    }
}

proof fn lemma_in_order(
    view: HeadersView,
    items: Seq<(Seq<u8>, Seq<u8>)>,
    order: Seq<(Seq<u8>, nat)>,
)
    requires
        order.len() == items.len(),
        forall|i: int|
            0 <= i < items.len() ==> {
                let (name, idx) = #[trigger] order[i];
                &&& idx < values_at(view.values, name).len()
                &&& values_at(view.values, name)[idx as int] == items[i].1
                &&& view.spelling(name, idx) == items[i].0
            },
    ensures
        view.in_order(order) == items,
    decreases items.len(),
{
    if items.len() == 0 {
        assert(view.in_order(order) =~= items);
    } else {
        let rest = items.skip(1);
        let more = order.skip(1);
        assert forall|i: int| 0 <= i < rest.len() implies {
            let (name, idx) = #[trigger] more[i];
            &&& idx < values_at(view.values, name).len()
            &&& values_at(view.values, name)[idx as int] == rest[i].1
            &&& view.spelling(name, idx) == rest[i].0
        } by {
            assert(more[i] == order[i + 1]);
            assert(rest[i] == items[i + 1]);
        }
        lemma_in_order(view, rest, more);
        let first = order[0];
        assert(view.in_order(order) =~= seq![items[0]] + rest);
        assert(seq![items[0]] + rest =~= items);
    }
}

/// Whether the order of headers, each of whose entries says how often its name came
/// before, has an entry for each of the values that are there, and each of those has a
/// spelling.
pub open spec fn order_fits(view: HeadersView) -> bool {
    &&& counts_up(view.order)
    &&& forall|name: Seq<u8>|
        values_at(view.values, name).len() <= #[trigger] count_name(view.order, name)
    &&& forall|name: Seq<u8>| #[trigger]
        values_at(view.cases, name).len() == values_at(view.values, name).len()
}

proof fn lemma_empty_order_fits()
    ensures
        order_fits(HeadersView::empty()),
{
}

/// The order of headers fits them at first, and keeps fitting whatever is added or
/// set.
pub proof fn law_order_keeps_fitting(view: HeadersView, name: Seq<u8>, value: Seq<u8>)
    requires
        order_fits(view),
    ensures
        order_fits(HeadersView::empty()),
        order_fits(view.add(name, value)),
        order_fits(view.set(name, value)),
{
    let key = lowered(name);
    law_order_counts_up(view.order, key, key);
    let more = view.add(name, value);
    assert forall|other: Seq<u8>|
        values_at(more.values, other).len() <= #[trigger] count_name(more.order, other) by {
        law_order_counts_up(view.order, key, other);
        assert(values_at(view.values, other).len() <= count_name(view.order, other));
    }
    assert forall|other: Seq<u8>| #[trigger]
        values_at(more.cases, other).len() == values_at(more.values, other).len() by {
        assert(values_at(view.cases, other).len() == values_at(view.values, other).len());
    }
    let one = view.set(name, value);
    assert forall|other: Seq<u8>|
        values_at(one.values, other).len() <= #[trigger] count_name(one.order, other) by {
        law_order_counts_up(view.order, key, other);
        assert(values_at(view.values, other).len() <= count_name(view.order, other));
    }
    assert forall|other: Seq<u8>| #[trigger]
        values_at(one.cases, other).len() == values_at(one.values, other).len() by {
        assert(values_at(view.cases, other).len() == values_at(view.values, other).len());
    }
}

proof fn lemma_in_order_has(view: HeadersView, order: Seq<(Seq<u8>, nat)>, i: int)
    requires
        0 <= i < order.len(),
        order[i].1 < values_at(view.values, order[i].0).len(),
    ensures
        view.in_order(order).contains(
            (
                view.spelling(order[i].0, order[i].1),
                values_at(view.values, order[i].0)[order[i].1 as int],
            ),
        ),
    decreases order.len(),
{
    let pair = (
        view.spelling(order[i].0, order[i].1),
        values_at(view.values, order[i].0)[order[i].1 as int],
    );
    let rest = order.skip(1);
    let list = view.in_order(order);
    let more = view.in_order(rest);
    if i == 0 {
        assert(list[0] == pair);
    } else {
        assert(rest[i - 1] == order[i]);
        lemma_in_order_has(view, rest, i - 1);
        let j = choose|j: int| 0 <= j < more.len() && more[j] == pair;
        if list.len() > more.len() {
            assert(list[j + 1] == pair);
        } else {
            assert(list[j] == pair);
        }
    }
}

proof fn lemma_fitting_order_names_all(view: HeadersView)
    requires
        order_fits(view),
    ensures
        view.named_by(view.order),
{
    let order = view.order;
    assert forall|name: Seq<u8>, k: nat|
        k < values_at(view.values, name).len() implies #[trigger] order.contains((name, k)) by {
        assert(values_at(view.values, name).len() <= count_name(order, name));
        law_order_has_each(order, name, k);
    }
}

proof fn lemma_added_fits(items: Seq<(Seq<u8>, Seq<u8>)>)
    ensures
        order_fits(added(items)),
    decreases items.len(),
{
    if items.len() > 0 {
        lemma_added_fits(items.drop_last());
        law_order_keeps_fitting(added(items.drop_last()), items.last().0, items.last().1);
    } else {
        lemma_empty_order_fits();
    }
}

/// The order of headers is known of each of them as long as they come of no headers by
/// adding and setting some: they are then listed in that order.
pub proof fn law_headers_stay_in_order(view: HeadersView, pairs: Seq<(Seq<u8>, Seq<u8>)>)
    requires
        order_fits(view),
        view.order.len() > 0,
    ensures
        view.listed(pairs) <==> pairs == view.in_order(view.order),
{
    lemma_fitting_order_names_all(view);
}

proof fn lemma_of_names_has(view: HeadersView, names: Seq<Seq<u8>>, name: Seq<u8>, k: nat)
    requires
        names.contains(name),
        k < values_at(view.values, name).len(),
    ensures
        view.of_names(names).contains(
            (view.spelling(name, k), values_at(view.values, name)[k as int]),
        ),
    decreases names.len(),
{
    let pair = (view.spelling(name, k), values_at(view.values, name)[k as int]);
    let before = view.of_names(names.drop_last());
    let last = view.of_name(names.last());
    if names.last() == name {
        assert(last[k as int] == pair);
        assert((before + last)[(before.len() + k) as int] == pair);
    } else {
        let i = choose|i: int| 0 <= i < names.len() && names[i] == name;
        assert(names.drop_last()[i] == name);
        lemma_of_names_has(view, names.drop_last(), name, k);
        let j = choose|j: int| 0 <= j < before.len() && before[j] == pair;
        assert((before + last)[j] == pair);
    }
}

/// Whatever was added, set or received: each value under each name is listed, with its
/// name as it was written.
pub proof fn law_every_header_is_listed(
    view: HeadersView,
    pairs: Seq<(Seq<u8>, Seq<u8>)>,
    name: Seq<u8>,
    k: nat,
)
    requires
        view.listed(pairs),
        k < values_at(view.values, name).len(),
    ensures
        pairs.contains((view.spelling(name, k), values_at(view.values, name)[k as int])),
{
    let order = view.order;
    if order.len() > 0 && view.named_by(order) {
        assert(order.contains((name, k)));
        let i = choose|i: int| 0 <= i < order.len() && order[i] == (name, k);
        lemma_in_order_has(view, order, i);
    } else {
        let names = choose|names: Seq<Seq<u8>>| #[trigger]
            are_names_of(names, view.values) && pairs == view.of_names(names);
        assert(names.contains(name));
        lemma_of_names_has(view, names, name, k);
    }
}

/// Headers that were added come back as they were added: each with its name as it
/// was written and its value, and all of them in their order.
pub proof fn law_added_headers_come_back(items: Seq<(Seq<u8>, Seq<u8>)>)
    ensures
        added(items).in_order(added(items).order) == items,
        items.len() > 0 ==> forall|pairs: Seq<(Seq<u8>, Seq<u8>)>| #[trigger]
            added(items).listed(pairs) <==> pairs == items,
{
    lemma_added(items);
    let view = added(items);
    let order = view.order;
    if items.len() > 0 {
        assert forall|i: int| 0 <= i < items.len() implies {
            let (name, idx) = #[trigger] order[i];
            &&& idx < values_at(view.values, name).len()
            &&& values_at(view.values, name)[idx as int] == items[i].1
            &&& view.spelling(name, idx) == items[i].0
        } by {
            law_order_finds_values(keyed(items), i);
            law_order_finds_values(spelled_keys(items), i);
            assert(keyed(items)[i] == (lowered(items[i].0), items[i].1));
            assert(spelled_keys(items)[i] == (lowered(items[i].0), items[i].0));
        }
        law_order_finds_values(keyed(items), 0);
    }
    assert(order.len() == items.len());
    lemma_in_order(view, items, order);
    lemma_added_fits(items);
    lemma_fitting_order_names_all(view);
}

/// Headers that go with a message, with their spellings and their order, are the
/// same headers on its other side.
pub proof fn law_wrapped_headers_are_the_same(view: HeadersView)
    ensures
        HeadersView::wrapped(view.values, Some(view.cases), Some(view.order)) == view,
{
}

// ----- messages -----

/// What goes with a message beyond its head and body.
#[derive(Debug)]
pub struct Extensions {
    /// The headers as the application sees them.
    pub headers: Option<hyper_headers>,
    /// The original spellings of the header names.
    pub casing: Option<HeaderCaseMap>,
    /// The order in which the headers came.
    pub order: Option<OriginalHeaderOrder>,
    /// The reason phrase, where it is not the usual one of the status.
    pub reason: Option<ReasonPhrase>,
}

impl Extensions {
    /// Nothing.
    pub fn new() -> (r: Extensions)
        ensures
            r.headers is None,
            r.casing is None,
            r.order is None,
            r.reason is None,
    {
        Extensions { headers: None, casing: None, order: None, reason: None }
    }
}

impl hyper_headers {
    /// The headers as the application sees them; none at first.
    pub fn get_or_default(ext: &mut Extensions) -> (headers: &mut hyper_headers)
        ensures
            old(ext).headers is Some ==> *headers == old(ext).headers->0,
            old(ext).headers is None ==> headers@ == HeadersView::empty(),
            final(ext).headers == Some(*final(headers)),
            final(ext).casing == old(ext).casing,
            final(ext).order == old(ext).order,
            final(ext).reason == old(ext).reason,
    {
        if ext.headers.is_none() {
            ext.headers = Some(hyper_headers::default());
        }
        match &mut ext.headers {
            Some(headers) => headers,
            None => vstd::pervasive::unreached(),
        }
    }
}

/// A request that the application builds.
pub struct hyper_request {
    pub method: Method,
    pub uri: Uri,
    pub version: Version,
    pub headers: HeaderMap,
    pub extensions: Extensions,
    pub body: Incoming,
}

impl hyper_request {
    /// A request as it starts: GET of the root, HTTP/1.1, no headers, no body.
    pub fn new() -> (r: hyper_request)
        ensures
            method_text(r.method) == ascii("GET"@),
            uri_text(r.uri) == "/"@,
            version_number(r.version) == 11,
            headers_of(r.headers) == no_headers(),
            r.extensions.headers is None,
            r.extensions.casing is None,
            r.extensions.order is None,
            r.extensions.reason is None,
            r.body.shape() is Empty,
    {
        hyper_request {
            method: method_get(),
            uri: uri_default(),
            version: version_http_11(),
            headers: headers_new(),
            extensions: Extensions::new(),
            body: Incoming::empty(),
        }
    }

    /// Sets the method, which must be a token.
    pub fn set_method(&mut self, method: &[u8]) -> (code: hyper_code)
        ensures
            is_token(method@) ==> code == hyper_code::HYPERE_OK && method_text(final(self).method)
                == method@ && *final(self) == (hyper_request {
                method: final(self).method,
                ..*old(self)
            }),
            !is_token(method@) ==> code == hyper_code::HYPERE_INVALID_ARG && *final(self)
                == *old(self),
    {
        match Method::from_bytes(method) {
            Ok(m) => {
                self.method = m;
                hyper_code::HYPERE_OK
            },
            Err(_) => hyper_code::HYPERE_INVALID_ARG,
        }
    }

    /// Puts an URI in place, if there is one.
    pub fn put_uri(&mut self, uri: Option<Uri>) -> (code: hyper_code)
        ensures
            uri is Some ==> code == hyper_code::HYPERE_OK && *final(self) == (hyper_request {
                uri: uri->0,
                ..*old(self)
            }),
            uri is None ==> code == hyper_code::HYPERE_INVALID_ARG && *final(self) == *old(self),
    {
        match uri {
            Some(u) => {
                self.uri = u;
                hyper_code::HYPERE_OK
            },
            None => hyper_code::HYPERE_INVALID_ARG,
        }
    }

    /// Sets the URI.
    pub fn set_uri(&mut self, uri: &[u8]) -> (code: hyper_code)
        ensures
            uri_of(uri@) is Some ==> code == hyper_code::HYPERE_OK && uri_text(final(self).uri)
                == uri_of(uri@)->0 && *final(self) == (hyper_request {
                uri: final(self).uri,
                ..*old(self)
            }),
            uri_of(uri@) is None ==> code == hyper_code::HYPERE_INVALID_ARG && *final(self)
                == *old(self),
    {
        let parsed: Option<Uri> = uri_parse(uri);
        self.put_uri(parsed)
    }

    /// Sets the URI from its parts, of which each may be missing.
    pub fn set_uri_parts(
        &mut self,
        scheme: Option<&[u8]>,
        authority: Option<&[u8]>,
        path_and_query: Option<&[u8]>,
    ) -> (code: hyper_code)
        ensures
            ({
                let built = uri_from_parts(
                    part_text(scheme),
                    part_text(authority),
                    part_text(path_and_query),
                );
                &&& built is Some ==> code == hyper_code::HYPERE_OK && uri_text(final(self).uri)
                    == built->0 && *final(self) == (hyper_request {
                    uri: final(self).uri,
                    ..*old(self)
                })
                &&& built is None ==> code == hyper_code::HYPERE_INVALID_ARG && *final(self)
                    == *old(self)
            }),
    {
        let built: Option<Uri> = uri_build(scheme, authority, path_and_query);
        self.put_uri(built)
    }

    /// Sets the HTTP version that is preferred; none in particular is HTTP/1.1.
    pub fn set_version(&mut self, version: i32) -> (code: hyper_code)
        ensures
            match request_version(version) {
                Some(number) => code == hyper_code::HYPERE_OK && version_number(
                    final(self).version,
                ) == number && *final(self) == (hyper_request {
                    version: final(self).version,
                    ..*old(self)
                }),
                None => code == hyper_code::HYPERE_INVALID_ARG && *final(self) == *old(self),
            },
    {
        if version == HYPER_HTTP_VERSION_NONE || version == HYPER_HTTP_VERSION_1_1 {
            self.version = version_http_11();
        } else if version == HYPER_HTTP_VERSION_1_0 {
            self.version = version_http_10();
        } else if version == HYPER_HTTP_VERSION_2 {
            self.version = version_http_2();
        } else {
            return hyper_code::HYPERE_INVALID_ARG;
        }
        hyper_code::HYPERE_OK
    }

    /// The headers as the application sees them.
    pub fn headers_mut(&mut self) -> (headers: &mut hyper_headers)
        ensures
            old(self).extensions.headers is Some ==> *headers == old(self).extensions.headers->0,
            old(self).extensions.headers is None ==> headers@ == HeadersView::empty(),
            *final(self) == (hyper_request {
                extensions: Extensions {
                    headers: Some(*final(headers)),
                    ..old(self).extensions
                },
                ..*old(self)
            }),
    {
        hyper_headers::get_or_default(&mut self.extensions)
    }

    /// Sets the body. The sender of a channel that fed the body before is told.
    pub fn set_body(&mut self, body: hyper_body) -> (code: hyper_code)
        ensures
            code == hyper_code::HYPERE_OK,
            *final(self) == (hyper_request { body: body.0, ..*old(self) }),
            exists|closed: Incoming| #[trigger] old(self).body.closes(closed),
    {
        self.body.close();
        self.body = body.0;
        hyper_code::HYPERE_OK
    }

    /// Makes the request ready to be sent: the headers that the application set
    /// become those of the message, and their spellings and order go with it.
    pub fn finalize_request(&mut self)
        ensures
            match old(self).extensions.headers {
                Some(h) => *final(self) == (hyper_request {
                    headers: h.headers,
                    extensions: Extensions {
                        headers: None,
                        casing: Some(h.orig_casing),
                        order: Some(h.orig_order),
                        reason: old(self).extensions.reason,
                    },
                    ..*old(self)
                }),
                None => *final(self) == *old(self),
            },
    {
        if let Some(h) = self.extensions.headers.take() {
            self.headers = h.headers;
            self.extensions.casing = Some(h.orig_casing);
            self.extensions.order = Some(h.orig_order);
        }
    }
}

/// The version that a constant of the interface asks for.
pub open spec fn request_version(version: i32) -> Option<u8> {
    if version == HYPER_HTTP_VERSION_NONE || version == HYPER_HTTP_VERSION_1_1 {
        Some(11)
    } else if version == HYPER_HTTP_VERSION_1_0 {
        Some(10)
    } else if version == HYPER_HTTP_VERSION_2 {
        Some(20)
    } else {
        None
    }
}

/// The constant of the interface for a version.
pub open spec fn response_version(number: u8) -> i32 {
    if number == 10 {
        HYPER_HTTP_VERSION_1_0
    } else if number == 11 {
        HYPER_HTTP_VERSION_1_1
    } else if number == 20 {
        HYPER_HTTP_VERSION_2
    } else {
        HYPER_HTTP_VERSION_NONE
    }
}

/// A version that was asked for by its constant is shown as that constant, but for
/// none in particular, which is shown as HTTP/1.1.
pub proof fn law_versions_round_trip(version: i32)
    requires
        request_version(version) is Some,
    ensures
        response_version(request_version(version)->0) == (if version == HYPER_HTTP_VERSION_NONE {
            HYPER_HTTP_VERSION_1_1
        } else {
            version
        }),
{
}

/// The reason phrase of a response: the one that came with it, else the usual one of its
/// status, else none.
pub open spec fn phrase_of(own: Option<Seq<u8>>, status: u16) -> Seq<u8> {
    match own {
        Some(reason) => reason,
        None => match canonical_reason(status) {
            Some(reason) => reason,
            None => Seq::empty(),
        },
    }
}

/// A response that the application looks at.
pub struct hyper_response {
    pub status: StatusCode,
    pub version: Version,
    pub headers: HeaderMap,
    pub extensions: Extensions,
    pub body: Incoming,
}

impl hyper_response {
    /// Makes a response ready for the application: its headers, their spellings and
    /// their order, as far as they are known, become the headers that the
    /// application sees.
    pub fn wrap(resp: hyper_response) -> (r: hyper_response)
        ensures
            r.status == resp.status,
            r.version == resp.version,
            r.body == resp.body,
            headers_of(r.headers) == no_headers(),
            r.extensions.casing is None,
            r.extensions.order is None,
            r.extensions.reason == resp.extensions.reason,
            r.extensions.headers is Some,
            r.extensions.headers->0.headers == resp.headers,
            r.extensions.headers->0@ == HeadersView::wrapped(
                headers_of(resp.headers),
                match resp.extensions.casing {
                    Some(casing) => Some(casing@),
                    None => None,
                },
                match resp.extensions.order {
                    Some(order) => Some(order@),
                    None => None,
                },
            ),
    {
        let orig_casing: HeaderCaseMap = match resp.extensions.casing {
            Some(casing) => casing,
            None => HeaderCaseMap::default(),
        };
        let orig_order: OriginalHeaderOrder = match resp.extensions.order {
            Some(order) => order,
            None => OriginalHeaderOrder::default(),
        };
        hyper_response {
            status: resp.status,
            version: resp.version,
            headers: headers_new(),
            extensions: Extensions {
                headers: Some(hyper_headers { headers: resp.headers, orig_casing, orig_order }),
                casing: None,
                order: None,
                reason: resp.extensions.reason,
            },
            body: resp.body,
        }
    }

    /// The number of the status.
    pub fn status(&self) -> (code: u16)
        ensures
            code == status_number(self.status),
    {
        status_code(&self.status)
    }

    /// The reason phrase: the one that came with the response, else the usual one
    /// of its status, else none.
    pub fn reason_phrase(&self) -> (s: &[u8])
        ensures
            s@ == phrase_of(
                match self.extensions.reason {
                    Some(reason) => Some(reason.bytes()),
                    None => None,
                },
                status_number(self.status),
            ),
    {
        if let Some(reason) = &self.extensions.reason {
            return reason.as_bytes();
        }
        if let Some(reason) = status_reason(&self.status) {
            return reason;
        }
        let none: &[u8] = &[];
        assert(none@ =~= Seq::<u8>::empty());
        none
    }

    /// The HTTP version, as a constant of the interface; none in particular for one
    /// that is newer or older.
    pub fn version(&self) -> (version: i32)
        ensures
            version == response_version(version_number(self.version)),
    {
        let number: u8 = version_code(&self.version);
        if number == 10 {
            HYPER_HTTP_VERSION_1_0
        } else if number == 11 {
            HYPER_HTTP_VERSION_1_1
        } else if number == 20 {
            HYPER_HTTP_VERSION_2
        } else {
            HYPER_HTTP_VERSION_NONE
        }
    }

    /// The headers as the application sees them.
    pub fn headers_mut(&mut self) -> (headers: &mut hyper_headers)
        ensures
            old(self).extensions.headers is Some ==> *headers == old(self).extensions.headers->0,
            old(self).extensions.headers is None ==> headers@ == HeadersView::empty(),
            *final(self) == (hyper_response {
                extensions: Extensions {
                    headers: Some(*final(headers)),
                    ..old(self).extensions
                },
                ..*old(self)
            }),
    {
        hyper_headers::get_or_default(&mut self.extensions)
    }

    /// Takes the body out; an empty one stays.
    pub fn take_body(&mut self) -> (body: hyper_body)
        ensures
            body.0 == old(self).body,
            *final(self) == (hyper_response { body: final(self).body, ..*old(self) }),
            final(self).body.shape() is Empty,
    {
        let mut body: Incoming = Incoming::empty();
        std::mem::swap(&mut self.body, &mut body);
        hyper_body(body)
    }
}

// ----- further laws of headers and messages -----

/// The headers of a name as they are to be seen: its values in their order, each with
/// its spelling, or with the name itself where that is not known.
pub open spec fn seen_of(view: HeadersView, name: Seq<u8>) -> Seq<(Seq<u8>, Seq<u8>)> {
    let values = if view.values.dom().contains(name) {
        view.values[name]
    } else {
        Seq::empty()
    };
    let cases = if view.cases.dom().contains(name) {
        view.cases[name]
    } else {
        Seq::empty()
    };
    Seq::new(
        values.len(),
        |k: int|
            (
                if k < cases.len() {
                    cases[k]
                } else {
                    name
                },
                values[k],
            ),
    )
}

/// Whether each spelling is one of its name, and each name is in lower case.
pub open spec fn spelled_right(view: HeadersView) -> bool {
    &&& forall|name: Seq<u8>, k: int|
        view.cases.dom().contains(name) && 0 <= k < view.cases[name].len() ==> lowered(
            #[trigger] view.cases[name][k],
        ) == name
    &&& forall|name: Seq<u8>| #[trigger]
        view.values.dom().contains(name) ==> lowered(name) == name
}

/// Those of some headers that have a name, whatever the case of its letters.
pub open spec fn having(pairs: Seq<(Seq<u8>, Seq<u8>)>, name: Seq<u8>) -> Seq<(Seq<u8>, Seq<u8>)>
    decreases pairs.len(),
{
    if pairs.len() == 0 {
        Seq::empty()
    } else if lowered(pairs.last().0) == name {
        having(pairs.drop_last(), name).push(pairs.last())
    } else {
        having(pairs.drop_last(), name)
    }
}

proof fn lemma_having_concat(
    a: Seq<(Seq<u8>, Seq<u8>)>,
    b: Seq<(Seq<u8>, Seq<u8>)>,
    name: Seq<u8>,
)
    ensures
        having(a + b, name) == having(a, name) + having(b, name),
    decreases b.len(),
{
    if b.len() == 0 {
        assert(a + b =~= a);
        assert(having(a, name) + having(b, name) =~= having(a, name));
    } else {
        lemma_having_concat(a, b.drop_last(), name);
        assert((a + b).drop_last() =~= a + b.drop_last());
        assert((a + b).last() == b.last());
        assert(having(a + b, name) =~= having(a, name) + having(b, name));
    }
}

proof fn lemma_having_all(a: Seq<(Seq<u8>, Seq<u8>)>, name: Seq<u8>)
    requires
        forall|i: int| 0 <= i < a.len() ==> lowered((#[trigger] a[i]).0) == name,
    ensures
        having(a, name) == a,
    decreases a.len(),
{
    if a.len() > 0 {
        let less = a.drop_last();
        assert forall|i: int| 0 <= i < less.len() implies lowered((#[trigger] less[i]).0)
            == name by {
            assert(less[i] == a[i]);
        }
        lemma_having_all(less, name);
        assert(lowered(a[a.len() - 1].0) == name);
        assert(having(a, name) =~= a);
    } else {
        assert(having(a, name) =~= a);
    }
}

proof fn lemma_having_none(a: Seq<(Seq<u8>, Seq<u8>)>, name: Seq<u8>)
    requires
        forall|i: int| 0 <= i < a.len() ==> lowered((#[trigger] a[i]).0) != name,
    ensures
        having(a, name) == Seq::<(Seq<u8>, Seq<u8>)>::empty(),
    decreases a.len(),
{
    if a.len() > 0 {
        let less = a.drop_last();
        assert forall|i: int| 0 <= i < less.len() implies lowered((#[trigger] less[i]).0)
            != name by {
            assert(less[i] == a[i]);
        }
        lemma_having_none(less, name);
        assert(lowered(a[a.len() - 1].0) != name);
    }
}

proof fn lemma_spelling_lowered(view: HeadersView, name: Seq<u8>, k: nat)
    requires
        spelled_right(view),
        k < values_at(view.values, name).len(),
    ensures
        lowered(view.spelling(name, k)) == name,
        seen_of(view, name)[k as int] == (
            view.spelling(name, k),
            values_at(view.values, name)[k as int],
        ),
{
    assert(view.values.dom().contains(name));
    if k < values_at(view.cases, name).len() {
        assert(lowered(view.cases[name][k as int]) == name);
    }
}

proof fn lemma_having_of_names(view: HeadersView, names: Seq<Seq<u8>>, name: Seq<u8>)
    requires
        spelled_right(view),
        names.no_duplicates(),
    ensures
        having(view.of_names(names), name) == (if names.contains(name) {
            seen_of(view, name)
        } else {
            Seq::empty()
        }),
    decreases names.len(),
{
    if names.len() > 0 {
        let less = names.drop_last();
        let last = names.last();
        assert forall|i: int, j: int|
            0 <= i < less.len() && 0 <= j < less.len() && i != j implies less[i] != less[j] by {
            assert(names[i] != names[j]);
        }
        lemma_having_of_names(view, less, name);
        let of_last = view.of_name(last);
        lemma_having_concat(view.of_names(less), of_last, name);
        assert forall|i: int| 0 <= i < of_last.len() implies lowered((#[trigger] of_last[i]).0)
            == last by {
            lemma_spelling_lowered(view, last, i as nat);
        }
        if last == name {
            lemma_having_all(of_last, name);
            assert(!less.contains(name)) by {
                if less.contains(name) {
                    let i = choose|i: int| 0 <= i < less.len() && less[i] == name;
                    assert(names[i] == names[names.len() - 1]);
                }
            }
            assert(names[names.len() - 1] == name);
            assert(of_last =~= seen_of(view, name)) by {
                assert forall|k: int| 0 <= k < of_last.len() implies of_last[k] == seen_of(
                    view,
                    name,
                )[k] by {
                    lemma_spelling_lowered(view, name, k as nat);
                }
            }
            assert(having(view.of_names(names), name) =~= seen_of(view, name));
        } else {
            assert forall|i: int| 0 <= i < of_last.len() implies lowered((#[trigger] of_last[i]).0)
                != name by {
                lemma_spelling_lowered(view, last, i as nat);
            }
            lemma_having_none(of_last, name);
            assert(having(view.of_names(names), name) =~= having(view.of_names(less), name));
            if names.contains(name) {
                let i = choose|i: int| 0 <= i < names.len() && names[i] == name;
                assert(less[i] == name);
            }
            if less.contains(name) {
                let i = choose|i: int| 0 <= i < less.len() && less[i] == name;
                assert(names[i] == name);
            }
        }
    }
}

proof fn lemma_having_in_order(
    view: HeadersView,
    order: Seq<(Seq<u8>, nat)>,
    i: int,
    name: Seq<u8>,
)
    requires
        spelled_right(view),
        counts_up(order),
        0 <= i <= order.len(),
        seen_of(view, name).len() <= count_name(order, name),
    ensures
        ({
            let all = seen_of(view, name);
            let c = count_name(order.take(i), name) as int;
            having(view.in_order(order.skip(i)), name) == (if c <= all.len() {
                all.skip(c)
            } else {
                Seq::empty()
            })
        }),
    decreases order.len() - i,
{
    let all = seen_of(view, name);
    let c = count_name(order.take(i), name) as int;
    let rest = order.skip(i);
    if i == order.len() {
        assert(order.take(i) =~= order);
        assert(rest =~= Seq::<(Seq<u8>, nat)>::empty());
        assert(view.in_order(rest) =~= Seq::<(Seq<u8>, Seq<u8>)>::empty());
        if c <= all.len() {
            assert(all.skip(c) =~= Seq::<(Seq<u8>, Seq<u8>)>::empty());
        }
    } else {
        lemma_having_in_order(view, order, i + 1, name);
        let (other, idx) = order[i];
        assert(order[i].1 == count_name(order.take(i), order[i].0));
        let t = order.take(i + 1);
        assert(t.drop_last() =~= order.take(i));
        assert(t.last() == order[i]);
        assert(rest[0] == order[i]);
        assert(rest.skip(1) =~= order.skip(i + 1));
        let later = view.in_order(rest.skip(1));
        if idx < values_at(view.values, other).len() {
            lemma_spelling_lowered(view, other, idx);
            let pair = (view.spelling(other, idx), values_at(view.values, other)[idx as int]);
            let one = seq![pair];
            assert(view.in_order(rest) == one + later);
            lemma_having_concat(one, later, name);
            if other == name {
                lemma_having_all(one, name);
                assert(all[c] == pair);
                assert(all.skip(c) =~= one + all.skip(c + 1));
            } else {
                lemma_having_none(one, name);
                assert(having(view.in_order(rest), name) =~= having(later, name));
            }
        } else {
            assert(view.in_order(rest) == later);
            if other == name {
                assert(values_at(view.values, name).len() == all.len());
                if c == all.len() {
                    assert(all.skip(c) =~= Seq::<(Seq<u8>, Seq<u8>)>::empty());
                }
            }
        }
    }
}

proof fn lemma_entry_is_counted(order: Seq<(Seq<u8>, nat)>, i: int)
    requires
        counts_up(order),
        0 <= i < order.len(),
    ensures
        order[i].1 < count_name(order, order[i].0),
    decreases order.len(),
{
    let rest = order.drop_last();
    assert forall|j: int| 0 <= j < rest.len() implies (#[trigger] rest[j]).1 == count_name(
        rest.take(j),
        rest[j].0,
    ) by {
        assert(rest[j] == order[j]);
        assert(rest.take(j) =~= order.take(j));
    }
    if i < rest.len() {
        assert(rest[i] == order[i]);
        lemma_entry_is_counted(rest, i);
    } else {
        assert(order.take(i) =~= rest);
    }
}

/// Whatever is known of the order: those of the listed headers that have a name are the
/// values of that name, each once, in the order in which they came, and each with its
/// own spelling.
pub proof fn law_values_of_a_name_keep_their_order(
    view: HeadersView,
    pairs: Seq<(Seq<u8>, Seq<u8>)>,
    name: Seq<u8>,
)
    requires
        spelled_right(view),
        counts_up(view.order),
        view.listed(pairs),
    ensures
        having(pairs, name) == seen_of(view, name),
{
    let all = seen_of(view, name);
    let order = view.order;
    if order.len() > 0 && view.named_by(order) {
        if all.len() > 0 {
            let k = (all.len() - 1) as nat;
            assert(k < values_at(view.values, name).len());
            assert(order.contains((name, k)));
            let i = choose|i: int| 0 <= i < order.len() && order[i] == (name, k);
            lemma_entry_is_counted(order, i);
        }
        lemma_having_in_order(view, order, 0, name);
        assert(order.take(0) =~= Seq::<(Seq<u8>, nat)>::empty());
        assert(order.skip(0) =~= order);
        assert(all.skip(0) =~= all);
    } else {
        let names = choose|names: Seq<Seq<u8>>| #[trigger]
            are_names_of(names, view.values) && pairs == view.of_names(names);
        lemma_having_of_names(view, names, name);
        if !names.contains(name) {
            assert(!view.values.dom().contains(name));
            assert(all =~= Seq::<(Seq<u8>, Seq<u8>)>::empty());
        }
    }
}

/// Headers that come of no headers by adding and setting some have spellings of their
/// names, so that the law above holds of them.
pub proof fn law_spellings_stay_right(view: HeadersView, name: Seq<u8>, value: Seq<u8>)
    requires
        spelled_right(view),
    ensures
        spelled_right(HeadersView::empty()),
        spelled_right(view.add(name, value)),
        spelled_right(view.set(name, value)),
{
    let key = lowered(name);
    assert(lowered(key) =~= key);
    let more = view.add(name, value);
    assert forall|other: Seq<u8>, k: int|
        more.cases.dom().contains(other) && 0 <= k < more.cases[other].len() implies lowered(
        #[trigger] more.cases[other][k],
    ) == other by {
        if other == key {
            let before = values_at(view.cases, key);
            if k < before.len() {
                assert(more.cases[key][k] == view.cases[key][k]);
            } else {
                assert(more.cases[key][k] == name);
            }
        } else {
            assert(more.cases[other][k] == view.cases[other][k]);
        }
    }
    let one = view.set(name, value);
    assert forall|other: Seq<u8>, k: int|
        one.cases.dom().contains(other) && 0 <= k < one.cases[other].len() implies lowered(
        #[trigger] one.cases[other][k],
    ) == other by {
        if other == key {
            assert(one.cases[key][k] == name);
        } else {
            assert(one.cases[other][k] == view.cases[other][k]);
        }
    }
}

/// A header that is added comes behind those of its name, and one that is set takes the
/// place of all of them; the same holds of its spelling, and no other name is touched.
pub proof fn law_adding_and_setting(
    view: HeadersView,
    name: Seq<u8>,
    value: Seq<u8>,
    key: Seq<u8>,
    other: Seq<u8>,
)
    requires
        key.len() == name.len(),
        forall|i: int|
            0 <= i < name.len() ==> #[trigger] key[i] == (if 65 <= name[i] && name[i] <= 90 {
                (name[i] + 32) as u8
            } else {
                name[i]
            }),
    ensures
        values_at(view.add(name, value).values, key) == values_at(view.values, key).push(value),
        values_at(view.add(name, value).cases, key) == values_at(view.cases, key).push(name),
        values_at(view.set(name, value).values, key) == seq![value],
        values_at(view.set(name, value).cases, key) == seq![name],
        other != key ==> values_at(view.add(name, value).values, other) == values_at(
            view.values,
            other,
        ) && values_at(view.add(name, value).cases, other) == values_at(view.cases, other)
            && values_at(view.set(name, value).values, other) == values_at(view.values, other)
            && values_at(view.set(name, value).cases, other) == values_at(view.cases, other),
        view.add(name, value).order.len() == view.order.len() + 1,
        view.add(name, value).order.drop_last() == view.order,
        view.add(name, value).order.last().0 == key,
        view.order.is_prefix_of(view.set(name, value).order),
{
    assert(lowered(name) =~= key);
    assert(view.add(name, value).order.drop_last() =~= view.order);
}

/// Where no order and no spellings of a message's headers are known, the application
/// sees the headers without them.
pub proof fn law_wrapped_headers_without_extras(
    values: Map<Seq<u8>, Seq<Seq<u8>>>,
    name: Seq<u8>,
)
    ensures
        HeadersView::wrapped(values, None, None).values == values,
        HeadersView::wrapped(values, None, None).order.len() == 0,
        !HeadersView::wrapped(values, None, None).cases.dom().contains(name),
        !HeadersView::empty().values.dom().contains(name),
        !HeadersView::empty().cases.dom().contains(name),
        HeadersView::empty().order.len() == 0,
{
}

/// The constants 10, 11 and 20 ask for the versions that they name, and 0 for 11; no
/// other constant asks for one. A version is shown by its own number, and as 0 where
/// there is no constant for it.
pub proof fn law_versions(version: i32, number: u8)
    ensures
        request_version(version) is Some <==> version == 0 || version == 10 || version == 11
            || version == 20,
        version == 0 ==> request_version(version) == Some(11u8),
        version == 10 ==> request_version(version) == Some(10u8),
        version == 11 ==> request_version(version) == Some(11u8),
        version == 20 ==> request_version(version) == Some(20u8),
        number == 10 || number == 11 || number == 20 ==> response_version(number) == number,
        number != 10 && number != 11 && number != 20 ==> response_version(number) == 0,
{
}

/// A header is taken only with a name, of at most 65535 bytes, and no byte of the name
/// or the value can end a line or a field: the name holds no control, space, colon or
/// byte beyond ASCII, and the value no control but the tab (9).
pub proof fn law_headers_keep_to_their_line(name: Seq<u8>, value: Seq<u8>, i: int, j: int)
    requires
        is_header(name, value),
    ensures
        0 < name.len() <= 65535,
        0 <= i < name.len() ==> 32 < name[i] && name[i] < 127 && name[i] != 58,
        0 <= j < value.len() ==> value[j] == 9 || value[j] >= 32 && value[j] != 127,
{
    if 0 <= i < name.len() {
        assert(is_tchar(name[i]));
    }
    if 0 <= j < value.len() {
        assert(is_value_byte(value[j]));
    }
}

/// Letters, digits, the hyphen (45) and the underscore (95) make a name; any byte but a
/// control can stand in a value.
pub proof fn law_plain_headers_are_taken(name: Seq<u8>, value: Seq<u8>)
    requires
        0 < name.len() <= 65535,
        forall|i: int|
            0 <= i < name.len() ==> (48 <= #[trigger] name[i] && name[i] <= 57) || (65 <= name[i]
                && name[i] <= 90) || (97 <= name[i] && name[i] <= 122) || name[i] == 45 || name[i]
                == 95,
        forall|i: int|
            0 <= i < value.len() ==> #[trigger] value[i] == 9 || value[i] >= 32 && value[i] != 127,
    ensures
        is_header(name, value),
{
    assert forall|i: int| 0 <= i < name.len() implies is_tchar(#[trigger] name[i]) by {}
    assert forall|i: int| 0 <= i < value.len() implies is_value_byte(#[trigger] value[i]) by {}
}

/// Listing goes entry by entry: what two parts of an order list, they list one after the
/// other, and one entry lists its own header, with its spelling, or nothing where that
/// header is not there.
pub proof fn law_listing_in_order(
    view: HeadersView,
    a: Seq<(Seq<u8>, nat)>,
    b: Seq<(Seq<u8>, nat)>,
    name: Seq<u8>,
    k: nat,
)
    ensures
        view.in_order(a + b) == view.in_order(a) + view.in_order(b),
        view.in_order(seq![(name, k)]) == (if k < seen_of(view, name).len() {
            seq![seen_of(view, name)[k as int]]
        } else {
            Seq::empty()
        }),
    decreases a.len(),
{
    if a.len() == 0 {
        assert(a + b =~= b);
        assert(view.in_order(a) + view.in_order(b) =~= view.in_order(b));
    } else {
        law_listing_in_order(view, a.skip(1), b, name, k);
        assert((a + b).skip(1) =~= a.skip(1) + b);
        assert((a + b)[0] == a[0]);
        assert(view.in_order(a + b) =~= view.in_order(a) + view.in_order(b));
    }
    let one = seq![(name, k)];
    assert(one.skip(1) =~= Seq::<(Seq<u8>, nat)>::empty());
    assert(view.in_order(one.skip(1)) =~= Seq::<(Seq<u8>, Seq<u8>)>::empty());
    if k < values_at(view.values, name).len() {
        assert(view.in_order(one) =~= seq![seen_of(view, name)[k as int]]);
    } else {
        assert(view.in_order(one) =~= Seq::<(Seq<u8>, Seq<u8>)>::empty());
    }
}

/// Without an order the headers are listed name by name, each name with all of its
/// headers in their order.
pub proof fn law_listing_by_name(
    view: HeadersView,
    a: Seq<Seq<u8>>,
    b: Seq<Seq<u8>>,
    name: Seq<u8>,
)
    ensures
        view.of_names(a + b) == view.of_names(a) + view.of_names(b),
        view.of_names(seq![name]) == seen_of(view, name),
    decreases b.len(),
{
    if b.len() == 0 {
        assert(a + b =~= a);
        assert(view.of_names(a) + view.of_names(b) =~= view.of_names(a));
    } else {
        law_listing_by_name(view, a, b.drop_last(), name);
        assert((a + b).drop_last() =~= a + b.drop_last());
        assert((a + b).last() == b.last());
        assert(view.of_names(a + b) =~= view.of_names(a) + view.of_names(b));
    }
    let one = seq![name];
    assert(one.drop_last() =~= Seq::<Seq<u8>>::empty());
    assert(view.of_names(one.drop_last()) =~= Seq::<(Seq<u8>, Seq<u8>)>::empty());
    assert(view.of_name(name) =~= seen_of(view, name));
    assert(view.of_names(one) =~= seen_of(view, name));
}

/// Where there was no room for a header, its spelling and the order are as before, and
/// the values are either as before or as they were to be.
pub proof fn law_headers_without_room(now: HeadersView, before: HeadersView, change: HeadersView)
    requires
        now.cut_short(before, change),
    ensures
        now.cases == before.cases,
        now.order == before.order,
        now.values == before.values || now.values == change.values,
{
}

/// What is said of listed headers is said of their bytes: the name first, then the value.
pub proof fn law_bytes_of_pairs(pairs: Seq<(Vec<u8>, Vec<u8>)>, i: int)
    requires
        0 <= i < pairs.len(),
    ensures
        pair_texts(pairs).len() == pairs.len(),
        pair_texts(pairs)[i].0 == pairs[i].0@,
        pair_texts(pairs)[i].1 == pairs[i].1@,
{
}

/// A reason phrase that came with a response is shown whatever the status; without one,
/// the usual phrase of the status is, and none where the status has no usual one.
pub proof fn law_reason_phrases(reason: Seq<u8>, status: u16)
    ensures
        phrase_of(Some(reason), status) == reason,
        canonical_reason(status) is Some ==> phrase_of(None, status) == canonical_reason(status)->0,
        canonical_reason(status) is None ==> phrase_of(None, status).len() == 0,
{
}

} // verus!
