//! The order in which headers came.

use http::header::HeaderName;
use vstd::prelude::*;

use crate::outside::http_crate::{name_clone, name_same, name_text, no_headers, values_at};

verus! {

/// How often a name occurs in an order.
pub open spec fn count_name(order: Seq<(Seq<u8>, nat)>, name: Seq<u8>) -> nat
    decreases order.len(),
{
    if order.len() == 0 {
        0
    } else {
        count_name(order.drop_last(), name) + (if order.last().0 == name {
            1nat
        } else {
            0nat
        })
    }
}

/// Whether each entry of an order says how often its name occurred before it.
pub open spec fn counts_up(order: Seq<(Seq<u8>, nat)>) -> bool {
    forall|i: int|
        0 <= i < order.len() ==> (#[trigger] order[i]).1 == count_name(order.take(i), order[i].0)
}

/// An order with one more header of a name.
pub open spec fn order_append(order: Seq<(Seq<u8>, nat)>, name: Seq<u8>) -> Seq<(Seq<u8>, nat)> {
    order.push((name, count_name(order, name)))
}

/// An order in which a name occurs: as it was, where the name did.
pub open spec fn order_insert(order: Seq<(Seq<u8>, nat)>, name: Seq<u8>) -> Seq<(Seq<u8>, nat)> {
    if count_name(order, name) == 0 {
        order.push((name, 0))
    } else {
        order
    }
}

/// The entries of an order.
pub open spec fn order_texts(entries: Seq<(HeaderName, usize)>) -> Seq<(Seq<u8>, nat)> {
    entries.map_values(|e: (HeaderName, usize)| (name_text(e.0), e.1 as nat))
}

/// The order in which headers came: the name of each, and its position among the
/// headers of that name.
#[derive(Debug)]
pub struct OriginalHeaderOrder {
    entry_order: Vec<(HeaderName, usize)>,
}

impl View for OriginalHeaderOrder {
    type V = Seq<(Seq<u8>, nat)>;

    closed spec fn view(&self) -> Seq<(Seq<u8>, nat)> {
        order_texts(self.entry_order@)
    }
}

impl OriginalHeaderOrder {
    /// No headers.
    pub fn default() -> (r: OriginalHeaderOrder)
        ensures
            r@ == Seq::<(Seq<u8>, nat)>::empty(),
    {
        let r = OriginalHeaderOrder { entry_order: Vec::new() };
        assert(r@ =~= Seq::<(Seq<u8>, nat)>::empty());
        r
    }

    /// How many headers of a name came.
    fn count(&self, name: &HeaderName) -> (n: usize)
        ensures
            n == count_name(self@, name_text(*name)),
            n <= self@.len(),
            self@.len() <= usize::MAX,
    {
        let ghost order = self@;
        let ghost text = name_text(*name);
        let mut n: usize = 0;
        let mut i: usize = 0;
        assert(order.take(0) =~= Seq::<(Seq<u8>, nat)>::empty());
        while i < self.entry_order.len()
            invariant
                i <= self.entry_order.len(),
                n <= i,
                order == self@,
                order.len() == self.entry_order.len(),
                text == name_text(*name),
                n == count_name(order.take(i as int), text),
            decreases self.entry_order.len() - i,
        {
            proof {
                let t = order.take(i + 1);
                assert(t.drop_last() =~= order.take(i as int));
                assert(t.last() == order[i as int]);
                assert(order[i as int].0 == name_text(self.entry_order@[i as int].0));
            }
            if name_same(&self.entry_order[i].0, name) {
                n = n + 1;
            }
            i = i + 1;
        }
        assert(order.take(i as int) =~= order);
        n
    }

    /// Notes a header that takes the place of all of its name: where the name came
    /// before, the order stays.
    pub fn insert(&mut self, name: HeaderName)
        ensures
            final(self)@ == order_insert(old(self)@, name_text(name)),
    {
        if self.count(&name) == 0 {
            let ghost text = name_text(name);
            self.entry_order.push((name, 0));
            assert(self@ =~= old(self)@.push((text, 0nat)));
        }
    }

    /// Notes a header that comes behind those of its name.
    pub fn append(&mut self, name: HeaderName)
        ensures
            final(self)@ == order_append(old(self)@, name_text(name)),
    {
        let idx: usize = self.count(&name);
        let ghost text = name_text(name);
        self.entry_order.push((name, idx));
        assert(self@ =~= old(self)@.push((text, idx as nat)));
    }

    /// The headers in the order in which they came.
    pub fn get_in_order(&self) -> (r: &Vec<(HeaderName, usize)>)
        ensures
            order_texts(r@) == self@,
    {
        &self.entry_order
    }
}

impl Clone for OriginalHeaderOrder {
    fn clone(&self) -> (r: OriginalHeaderOrder)
        ensures
            r@ == self@,
    {
        let mut entry_order: Vec<(HeaderName, usize)> = Vec::new();
        let mut i: usize = 0;
        while i < self.entry_order.len()
            invariant
                i <= self.entry_order.len(),
                self@.len() == self.entry_order.len(),
                order_texts(entry_order@) =~= self@.take(i as int),
            decreases self.entry_order.len() - i,
        {
            let entry: &(HeaderName, usize) = &self.entry_order[i];
            let ghost before = order_texts(entry_order@);
            entry_order.push((name_clone(&entry.0), entry.1));
            proof {
                assert(order_texts(entry_order@) =~= before.push(
                    (name_text(entry.0), entry.1 as nat),
                ));
                assert(self@[i as int] == (name_text(entry.0), entry.1 as nat));
            }
            i = i + 1;
        }
        let r = OriginalHeaderOrder { entry_order };
        assert(r@ =~= self@);
        r
    }
}

proof fn lemma_counts_up_push(order: Seq<(Seq<u8>, nat)>, entry: (Seq<u8>, nat))
    requires
        counts_up(order),
        entry.1 == count_name(order, entry.0),
    ensures
        counts_up(order.push(entry)),
{
    let more = order.push(entry);
    assert forall|i: int| 0 <= i < more.len() implies (#[trigger] more[i]).1 == count_name(
        more.take(i),
        more[i].0,
    ) by {
        if i < order.len() {
            assert(more[i] == order[i]);
            assert(more.take(i) =~= order.take(i));
        } else {
            assert(more.take(i) =~= order);
        }
    }
}

proof fn lemma_counts_up_rest(order: Seq<(Seq<u8>, nat)>)
    requires
        counts_up(order),
        order.len() > 0,
    ensures
        counts_up(order.drop_last()),
        order.last().1 == count_name(order.drop_last(), order.last().0),
{
    let rest = order.drop_last();
    assert forall|i: int| 0 <= i < rest.len() implies (#[trigger] rest[i]).1 == count_name(
        rest.take(i),
        rest[i].0,
    ) by {
        assert(rest[i] == order[i]);
        assert(rest.take(i) =~= order.take(i));
    }
    assert(order[order.len() - 1] == order.last());
    assert(order.take(order.len() - 1) =~= rest);
}

/// Each entry of an order says how often its name occurred before it: so it is of
/// an empty order, and so it stays whatever header is noted. A name that is noted in
/// addition occurs once more, one that takes the place of all of its name occurs at
/// least once, and all others occur as often as before.
pub proof fn law_order_counts_up(order: Seq<(Seq<u8>, nat)>, name: Seq<u8>, other: Seq<u8>)
    requires
        counts_up(order),
    ensures
        counts_up(Seq::empty()),
        counts_up(order_append(order, name)),
        counts_up(order_insert(order, name)),
        count_name(order_append(order, name), other) == count_name(order, other) + (if other
            == name {
            1nat
        } else {
            0nat
        }),
        count_name(order_insert(order, name), other) == (if other == name && count_name(
            order,
            name,
        ) == 0 {
            1nat
        } else {
            count_name(order, other)
        }),
{
    lemma_counts_up_push(order, (name, count_name(order, name)));
    assert(order_append(order, name).drop_last() =~= order);
    if count_name(order, name) == 0 {
        assert(order_insert(order, name).drop_last() =~= order);
    }
}

/// An order whose entries count up holds an entry for each header of a name.
pub proof fn law_order_has_each(order: Seq<(Seq<u8>, nat)>, name: Seq<u8>, k: nat)
    requires
        counts_up(order),
        k < count_name(order, name),
    ensures
        order.contains((name, k)),
    decreases order.len(),
{
    let rest = order.drop_last();
    lemma_counts_up_rest(order);
    if k < count_name(rest, name) {
        law_order_has_each(rest, name, k);
        let i = choose|i: int| 0 <= i < rest.len() && rest[i] == (name, k);
        assert(order[i] == (name, k));
    } else {
        assert(order[order.len() - 1] == (name, k));
    }
}

/// What a header map holds after values were appended under some names.
pub open spec fn map_of(items: Seq<(Seq<u8>, Seq<u8>)>) -> Map<Seq<u8>, Seq<Seq<u8>>>
    decreases items.len(),
{
    if items.len() == 0 {
        no_headers()
    } else {
        let before = map_of(items.drop_last());
        let (name, value) = items.last();
        before.insert(name, values_at(before, name).push(value))
    }
}

/// The order after values were appended under some names.
pub open spec fn order_of(items: Seq<(Seq<u8>, Seq<u8>)>) -> Seq<(Seq<u8>, nat)>
    decreases items.len(),
{
    if items.len() == 0 {
        Seq::empty()
    } else {
        order_append(order_of(items.drop_last()), items.last().0)
    }
}

proof fn lemma_order_len(items: Seq<(Seq<u8>, Seq<u8>)>)
    ensures
        order_of(items).len() == items.len(),
    decreases items.len(),
{
    if items.len() > 0 {
        lemma_order_len(items.drop_last());
    }
}

proof fn lemma_values_count(items: Seq<(Seq<u8>, Seq<u8>)>, name: Seq<u8>)
    ensures
        values_at(map_of(items), name).len() == count_name(order_of(items), name),
    decreases items.len(),
{
    if items.len() > 0 {
        let rest = items.drop_last();
        lemma_values_count(rest, name);
        let order = order_of(items);
        assert(order.drop_last() =~= order_of(rest));
        assert(order.last().0 == items.last().0);
    }
}

/// The order finds the headers again: when values were appended under some names,
/// the entry of each names it, and the value at its position among the values of
/// that name is its value.
pub proof fn law_order_finds_values(items: Seq<(Seq<u8>, Seq<u8>)>, i: int)
    requires
        0 <= i < items.len(),
    ensures
        order_of(items).len() == items.len(),
        order_of(items)[i].0 == items[i].0,
        order_of(items)[i].1 < values_at(map_of(items), items[i].0).len(),
        values_at(map_of(items), items[i].0)[order_of(items)[i].1 as int] == items[i].1,
    decreases items.len(),
{
    let rest = items.drop_last();
    lemma_order_len(items);
    lemma_order_len(rest);
    lemma_values_count(rest, items[i].0);
    if i < rest.len() {
        law_order_finds_values(rest, i);
        assert(rest[i] == items[i]);
    }
}

/// One more header of a name comes behind all others, with its position among those of
/// its name; one that takes the place of all of its name is noted only where the name
/// was not there. Nothing that was noted before is changed.
pub proof fn law_notes_come_behind(order: Seq<(Seq<u8>, nat)>, name: Seq<u8>)
    ensures
        order_append(order, name).len() == order.len() + 1,
        order.is_prefix_of(order_append(order, name)),
        order_append(order, name).last() == (name, count_name(order, name)),
        order.is_prefix_of(order_insert(order, name)),
        count_name(order, name) > 0 ==> order_insert(order, name) == order,
        count_name(order, name) == 0 ==> order_insert(order, name) == order_append(order, name),
{
}

/// How often a name occurs: not at all in no entries, and once more with each entry that
/// has it.
pub proof fn law_counting(order: Seq<(Seq<u8>, nat)>, entry: (Seq<u8>, nat), name: Seq<u8>)
    ensures
        count_name(Seq::empty(), name) == 0,
        count_name(order.push(entry), name) == (if entry.0 == name {
            count_name(order, name) + 1
        } else {
            count_name(order, name)
        }),
{
    assert(order.push(entry).drop_last() =~= order);
}

/// What is said of entries is said of the text and the position of each.
pub proof fn law_texts_of_entries(entries: Seq<(HeaderName, usize)>, i: int)
    requires
        0 <= i < entries.len(),
    ensures
        order_texts(entries).len() == entries.len(),
        order_texts(entries)[i].0 == name_text(entries[i].0),
        order_texts(entries)[i].1 == entries[i].1,
{
}

} // verus!
