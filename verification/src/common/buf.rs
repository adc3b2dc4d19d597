//! A list of byte buffers that reads as one.

use std::collections::VecDeque;

use bytes::{Bytes, BytesMut};
use vstd::prelude::*;
use vstd::slice::slice_subrange;

use crate::outside::bytes_crate::{
    bytes_advance, bytes_copy_to_bytes, bytes_slice, content, content_mut,
};

verus! {

/// A buffer that is read from its front.
pub trait Segment: Sized {
    /// The bytes that are left.
    spec fn left(&self) -> Seq<u8>;

    /// The part of them that lies in one piece at the front.
    spec fn front(&self) -> Seq<u8>;

    /// The front is a prefix of what is left, and empty only at the end.
    proof fn front_is_prefix(&self)
        ensures
            self.front().len() <= self.left().len(),
            self.front() == self.left().take(self.front().len() as int),
            self.left().len() > 0 ==> self.front().len() > 0,
    ;

    /// What is left in pieces, each of which lies in one piece; at most so many.
    spec fn pieces(&self, max: nat) -> Seq<Seq<u8>>;

    /// The pieces are a prefix of what is left, and all of it where more would be
    /// allowed.
    proof fn pieces_are_prefix(&self, max: nat)
        ensures
            self.pieces(max).len() <= max,
            joined(self.pieces(max)).len() <= self.left().len(),
            joined(self.pieces(max)) == self.left().take(joined(self.pieces(max)).len() as int),
            self.pieces(max).len() < max ==> joined(self.pieces(max)) == self.left(),
    ;

    /// The number of bytes that are left.
    fn remaining(&self) -> (n: usize)
        ensures
            n == self.left().len(),
    ;

    /// The part that lies in one piece at the front.
    fn chunk(&self) -> (s: &[u8])
        ensures
            s@ == self.front(),
    ;

    /// What is left in pieces; at most so many.
    fn chunks(&self, max: usize) -> (r: Vec<&[u8]>)
        ensures
            slice_texts(r@) == self.pieces(max as nat),
    ;

    /// Drops bytes from the front.
    fn advance(&mut self, cnt: usize)
        requires
            cnt <= old(self).left().len(),
        ensures
            final(self).left() == old(self).left().skip(cnt as int),
    ;

    /// Takes bytes out at the front.
    fn copy_to_bytes(&mut self, len: usize) -> (b: Bytes)
        requires
            len <= old(self).left().len(),
        ensures
            content(b) == old(self).left().take(len as int),
            final(self).left() == old(self).left().skip(len as int),
    ;
}

/// The bytes of some slices.
pub open spec fn slice_texts(slices: Seq<&[u8]>) -> Seq<Seq<u8>> {
    slices.map_values(|s: &[u8]| s@)
}

/// The pieces of bytes that lie in one piece: one, or none where there are no bytes
/// or no piece is allowed.
pub open spec fn one_piece(bytes: Seq<u8>, max: nat) -> Seq<Seq<u8>> {
    if max > 0 && bytes.len() > 0 {
        seq![bytes]
    } else {
        Seq::empty()
    }
}

proof fn lemma_one_piece(bytes: Seq<u8>, max: nat)
    ensures
        one_piece(bytes, max).len() <= max,
        joined(one_piece(bytes, max)).len() <= bytes.len(),
        joined(one_piece(bytes, max)) == bytes.take(joined(one_piece(bytes, max)).len() as int),
        one_piece(bytes, max).len() < max ==> joined(one_piece(bytes, max)) == bytes,
{
    let pieces = one_piece(bytes, max);
    if pieces.len() > 0 {
        assert(pieces.skip(1) =~= Seq::<Seq<u8>>::empty());
        assert(joined(pieces.skip(1)) =~= Seq::<u8>::empty());
        assert(joined(pieces) =~= bytes);
        assert(bytes.take(bytes.len() as int) =~= bytes);
    } else {
        assert(joined(pieces) =~= Seq::<u8>::empty());
        assert(bytes.take(0) =~= Seq::<u8>::empty());
        if bytes.len() == 0 {
            assert(bytes =~= Seq::<u8>::empty());
        }
    }
}

fn one_chunk(s: &[u8], max: usize) -> (r: Vec<&[u8]>)
    ensures
        slice_texts(r@) == one_piece(s@, max as nat),
{
    let mut r: Vec<&[u8]> = Vec::new();
    if max > 0 && s.len() > 0 {
        r.push(s);
    }
    assert(slice_texts(r@) =~= one_piece(s@, max as nat));
    r
}

impl Segment for Bytes {
    open spec fn left(&self) -> Seq<u8> {
        content(*self)
    }

    open spec fn front(&self) -> Seq<u8> {
        content(*self)
    }

    proof fn front_is_prefix(&self) {
        assert(content(*self).take(content(*self).len() as int) =~= content(*self));
    }

    open spec fn pieces(&self, max: nat) -> Seq<Seq<u8>> {
        one_piece(content(*self), max)
    }

    proof fn pieces_are_prefix(&self, max: nat) {
        lemma_one_piece(content(*self), max);
    }

    fn remaining(&self) -> (n: usize) {
        self.len()
    }

    fn chunk(&self) -> (s: &[u8]) {
        bytes_slice(self)
    }

    fn chunks(&self, max: usize) -> (r: Vec<&[u8]>) {
        one_chunk(bytes_slice(self), max)
    }

    fn advance(&mut self, cnt: usize) {
        bytes_advance(self, cnt);
    }

    fn copy_to_bytes(&mut self, len: usize) -> (b: Bytes) {
        bytes_copy_to_bytes(self, len)
    }
}

impl<'a> Segment for &'a [u8] {
    open spec fn left(&self) -> Seq<u8> {
        self@
    }

    open spec fn front(&self) -> Seq<u8> {
        self@
    }

    proof fn front_is_prefix(&self) {
        assert(self@.take(self@.len() as int) =~= self@);
    }

    open spec fn pieces(&self, max: nat) -> Seq<Seq<u8>> {
        one_piece(self@, max)
    }

    proof fn pieces_are_prefix(&self, max: nat) {
        lemma_one_piece(self@, max);
    }

    fn remaining(&self) -> (n: usize) {
        self.len()
    }

    fn chunk(&self) -> (s: &[u8]) {
        *self
    }

    fn chunks(&self, max: usize) -> (r: Vec<&[u8]>) {
        one_chunk(*self, max)
    }

    fn advance(&mut self, cnt: usize) {
        let whole: &'a [u8] = *self;
        *self = slice_subrange(whole, cnt, whole.len());
        assert(self@ =~= whole@.skip(cnt as int));
    }

    fn copy_to_bytes(&mut self, len: usize) -> (b: Bytes) {
        let whole: &'a [u8] = *self;
        let b: Bytes = Bytes::copy_from_slice(slice_subrange(whole, 0, len));
        *self = slice_subrange(whole, len, whole.len());
        assert(self@ =~= whole@.skip(len as int));
        assert(whole@.subrange(0, len as int) =~= whole@.take(len as int));
        b
    }
}

/// The bytes of some buffers, one after the other.
pub open spec fn joined(bufs: Seq<Seq<u8>>) -> Seq<u8>
    decreases bufs.len(),
{
    if bufs.len() == 0 {
        Seq::empty()
    } else {
        bufs[0] + joined(bufs.skip(1))
    }
}

/// What is left of some buffers once bytes were taken at their front: a buffer
/// that is used up is gone.
pub open spec fn without_front(bufs: Seq<Seq<u8>>, cnt: nat) -> Seq<Seq<u8>>
    decreases bufs.len(),
{
    if cnt == 0 || bufs.len() == 0 {
        bufs
    } else if bufs[0].len() > cnt {
        seq![bufs[0].skip(cnt as int)] + bufs.skip(1)
    } else {
        without_front(bufs.skip(1), (cnt - bufs[0].len()) as nat)
    }
}

/// Whether none of some buffers is empty.
pub open spec fn none_empty(bufs: Seq<Seq<u8>>) -> bool {
    forall|i: int| 0 <= i < bufs.len() ==> (#[trigger] bufs[i]).len() > 0
}

/// What is in some buffers.
pub open spec fn lefts<T: Segment>(bufs: Seq<T>) -> Seq<Seq<u8>> {
    bufs.map_values(|b: T| b.left())
}

/// Taking bytes from some buffers leaves the rest of their bytes, and no empty
/// buffer.
pub proof fn law_without_front(bufs: Seq<Seq<u8>>, cnt: nat)
    requires
        none_empty(bufs),
        cnt <= joined(bufs).len(),
    ensures
        joined(without_front(bufs, cnt)) == joined(bufs).skip(cnt as int),
        none_empty(without_front(bufs, cnt)),
    decreases bufs.len(),
{
    let rest = bufs.skip(1);
    if cnt == 0 || bufs.len() == 0 {
        assert(joined(bufs).skip(0) =~= joined(bufs));
    } else if bufs[0].len() > cnt {
        let now = seq![bufs[0].skip(cnt as int)] + rest;
        assert(now.skip(1) =~= rest);
        assert(joined(now) =~= joined(bufs).skip(cnt as int));
        assert forall|i: int| 0 <= i < now.len() implies (#[trigger] now[i]).len() > 0 by {
            if i > 0 {
                assert(now[i] == bufs[i]);
            }
        }
    } else {
        lemma_rest_none_empty(bufs);
        let more = (cnt - bufs[0].len()) as nat;
        law_without_front(rest, more);
        assert(joined(rest).skip(more as int) =~= joined(bufs).skip(cnt as int));
    }
}

/// Taking bytes twice is taking them at once.
pub proof fn law_without_front_twice(bufs: Seq<Seq<u8>>, a: nat, b: nat)
    requires
        none_empty(bufs),
        a + b <= joined(bufs).len(),
    ensures
        without_front(without_front(bufs, a), b) == without_front(bufs, a + b),
    decreases bufs.len(),
{
    if a == 0 || b == 0 || bufs.len() == 0 {
    } else if bufs[0].len() > a {
        let mid = without_front(bufs, a);
        assert(mid.skip(1) =~= bufs.skip(1));
        assert(mid[0] == bufs[0].skip(a as int));
        if bufs[0].len() > a + b {
            assert(mid[0].skip(b as int) =~= bufs[0].skip((a + b) as int));
        }
    } else {
        lemma_rest_none_empty(bufs);
        law_without_front_twice(bufs.skip(1), (a - bufs[0].len()) as nat, b);
    }
}

proof fn lemma_rest_none_empty(bufs: Seq<Seq<u8>>)
    requires
        none_empty(bufs),
        bufs.len() > 0,
    ensures
        none_empty(bufs.skip(1)),
{
    let rest = bufs.skip(1);
    assert forall|i: int| 0 <= i < rest.len() implies (#[trigger] rest[i]).len() > 0 by {
        assert(rest[i] == bufs[i + 1]);
    }
}

/// The bytes of some buffers and one more.
proof fn lemma_joined_push(bufs: Seq<Seq<u8>>, last: Seq<u8>)
    ensures
        joined(bufs.push(last)) == joined(bufs) + last,
    decreases bufs.len(),
{
    let more = bufs.push(last);
    if bufs.len() == 0 {
        assert(more.skip(1) =~= Seq::<Seq<u8>>::empty());
        assert(joined(more.skip(1)) =~= Seq::<u8>::empty());
        assert(joined(more) =~= joined(bufs) + last);
    } else {
        lemma_joined_push(bufs.skip(1), last);
        assert(more.skip(1) =~= bufs.skip(1).push(last));
        assert(joined(more) =~= joined(bufs) + last);
    }
}

/// The length of the first buffers grows to that of all.
proof fn lemma_joined_take(bufs: Seq<Seq<u8>>, k: int)
    requires
        0 <= k < bufs.len(),
    ensures
        joined(bufs.take(k + 1)).len() == joined(bufs.take(k)).len() + bufs[k].len(),
        joined(bufs.take(k + 1)).len() <= joined(bufs).len(),
    decreases bufs.len() - k,
{
    assert(bufs.take(k + 1) =~= bufs.take(k).push(bufs[k]));
    lemma_joined_push(bufs.take(k), bufs[k]);
    if k + 1 < bufs.len() {
        lemma_joined_take(bufs, k + 1);
    } else {
        assert(bufs.take(k + 1) =~= bufs);
    }
}

/// The pieces of some buffers, at most so many: those of the first buffer, then
/// those of the next, as far as there is room.
pub open spec fn pieces_of<T: Segment>(bufs: Seq<T>, max: nat) -> Seq<Seq<u8>>
    decreases bufs.len(),
{
    if bufs.len() == 0 || max == 0 {
        Seq::empty()
    } else {
        let first = bufs[0].pieces(max);
        first + pieces_of(bufs.skip(1), (max - first.len()) as nat)
    }
}

proof fn lemma_joined_concat(a: Seq<Seq<u8>>, b: Seq<Seq<u8>>)
    ensures
        joined(a + b) == joined(a) + joined(b),
    decreases a.len(),
{
    if a.len() == 0 {
        assert(a + b =~= b);
        assert(joined(a) + joined(b) =~= joined(b));
    } else {
        lemma_joined_concat(a.skip(1), b);
        assert((a + b).skip(1) =~= a.skip(1) + b);
        assert(joined(a + b) =~= joined(a) + joined(b));
    }
}

/// The pieces of some buffers are a prefix of their bytes, in order and without a
/// gap; and all of them where more pieces would be allowed.
pub proof fn law_pieces_are_prefix<T: Segment>(bufs: Seq<T>, max: nat)
    ensures
        pieces_of(bufs, max).len() <= max,
        joined(pieces_of(bufs, max)).len() <= joined(lefts(bufs)).len(),
        joined(pieces_of(bufs, max)) == joined(lefts(bufs)).take(
            joined(pieces_of(bufs, max)).len() as int,
        ),
        pieces_of(bufs, max).len() < max ==> joined(pieces_of(bufs, max)) == joined(lefts(bufs)),
    decreases bufs.len(),
{
    let all = joined(lefts(bufs));
    let pieces = pieces_of(bufs, max);
    if bufs.len() == 0 || max == 0 {
        assert(joined(pieces) =~= Seq::<u8>::empty());
        assert(all.take(0) =~= Seq::<u8>::empty());
        if bufs.len() == 0 {
            assert(all =~= Seq::<u8>::empty());
        }
    } else {
        let first = bufs[0].pieces(max);
        let rest = bufs.skip(1);
        let room = (max - first.len()) as nat;
        let others = pieces_of(rest, room);
        bufs[0].pieces_are_prefix(max);
        law_pieces_are_prefix(rest, room);
        lemma_joined_concat(first, others);
        assert(lefts(bufs).skip(1) =~= lefts(rest));
        assert(lefts(bufs)[0] == bufs[0].left());
        assert(all =~= bufs[0].left() + joined(lefts(rest)));
        if first.len() < max {
            assert(joined(pieces) =~= all.take(joined(pieces).len() as int));
        } else {
            assert(others =~= Seq::<Seq<u8>>::empty());
            assert(joined(others) =~= Seq::<u8>::empty());
            assert(joined(pieces) =~= all.take(joined(pieces).len() as int));
        }
    }
}

/// A list of buffers, none of them empty.
#[derive(Debug)]
pub struct BufList<T> {
    bufs: VecDeque<T>,
}

impl<T: Segment> BufList<T> {
    /// The buffers themselves.
    pub closed spec fn segments(&self) -> Seq<T> {
        self.bufs@
    }

    /// What the buffers hold.
    pub open spec fn parts(&self) -> Seq<Seq<u8>> {
        lefts(self.segments())
    }

    /// The bytes that the list holds.
    pub open spec fn flat(&self) -> Seq<u8> {
        joined(self.parts())
    }

    /// No buffer of the list is empty.
    pub open spec fn wf(&self) -> bool {
        none_empty(self.parts())
    }

    /// An empty list.
    pub fn new() -> (list: BufList<T>)
        ensures
            list.wf(),
            list.parts() == Seq::<Seq<u8>>::empty(),
    {
        let list = BufList { bufs: VecDeque::new() };
        assert(list.parts() =~= Seq::<Seq<u8>>::empty());
        list
    }

    /// Adds a buffer, which must hold something, behind the others.
    pub fn push(&mut self, buf: T)
        requires
            old(self).wf(),
            buf.left().len() > 0,
        ensures
            final(self).wf(),
            final(self).segments() == old(self).segments().push(buf),
            final(self).flat() == old(self).flat() + buf.left(),
    {
        self.bufs.push_back(buf);
        proof {
            let before = old(self).parts();
            let now = self.parts();
            assert(now =~= before.push(buf.left()));
            lemma_joined_push(before, buf.left());
            assert forall|i: int| 0 <= i < now.len() implies (#[trigger] now[i]).len() > 0 by {
                if i < before.len() {
                    assert(now[i] == before[i]);
                }
            }
        }
    }

    /// The number of buffers.
    pub fn bufs_cnt(&self) -> (n: usize)
        ensures
            n == self.parts().len(),
    {
        self.bufs.len()
    }

    /// The number of bytes in the list.
    pub fn remaining(&self) -> (n: usize)
        requires
            self.flat().len() <= usize::MAX,
        ensures
            n == self.flat().len(),
    {
        let mut sum: usize = 0;
        let mut i: usize = 0;
        let ghost parts = self.parts();
        assert(parts.take(0) =~= Seq::<Seq<u8>>::empty());
        while i < self.bufs.len()
            invariant
                i <= self.bufs.len(),
                parts == self.parts(),
                parts.len() == self.bufs.len(),
                self.flat().len() <= usize::MAX,
                sum == joined(parts.take(i as int)).len(),
            decreases self.bufs.len() - i,
        {
            proof {
                lemma_joined_take(parts, i as int);
                assert(parts[i as int] == self.bufs@[i as int].left());
            }
            sum = sum + self.bufs[i].remaining();
            i = i + 1;
        }
        assert(parts.take(i as int) =~= parts);
        sum
    }

    /// The first piece of the list; empty only where the list is.
    pub fn chunk(&self) -> (s: &[u8])
        ensures
            self.parts().len() == 0 ==> s@.len() == 0,
            self.parts().len() > 0 ==> s@ == self.segments()[0].front(),
            s@.len() <= self.flat().len(),
            s@ == self.flat().take(s@.len() as int),
            self.wf() && self.flat().len() > 0 ==> s@.len() > 0,
    {
        if self.bufs.len() > 0 {
            let s: &[u8] = self.bufs[0].chunk();
            proof {
                let first = self.bufs@[0];
                first.front_is_prefix();
                let parts = self.parts();
                assert(parts[0] == first.left());
                assert(s@ =~= joined(parts).take(s@.len() as int));
                if self.wf() {
                    assert(parts[0].len() > 0);
                }
            }
            s
        } else {
            let s: &[u8] = &[];
            assert(s@ =~= self.flat().take(0));
            s
        }
    }

    /// Drops bytes from the front of the list.
    pub fn advance(&mut self, cnt: usize)
        requires
            old(self).wf(),
            cnt <= old(self).flat().len(),
        ensures
            final(self).wf(),
            final(self).parts() == without_front(old(self).parts(), cnt as nat),
            final(self).flat() == old(self).flat().skip(cnt as int),
    {
        let mut todo: usize = cnt;
        proof {
            law_without_front(old(self).parts(), cnt as nat);
        }
        while todo > 0
            invariant
                self.wf(),
                todo <= self.flat().len(),
                without_front(self.parts(), todo as nat) == without_front(
                    old(self).parts(),
                    cnt as nat,
                ),
                none_empty(without_front(old(self).parts(), cnt as nat)),
                joined(without_front(old(self).parts(), cnt as nat)) == old(self).flat().skip(
                    cnt as int,
                ),
            ensures
                todo == 0,
            decreases self.parts().len(),
        {
            let ghost parts = self.parts();
            assert(parts.len() > 0);
            let ghost bufs = self.bufs@;
            assert(parts[0] == bufs[0].left());
            let mut front: T = self.bufs.pop_front().unwrap();
            let rem: usize = front.remaining();
            proof {
                assert(self.parts() =~= parts.skip(1));
                lemma_rest_none_empty(parts);
                assert(joined(parts).len() == parts[0].len() + joined(parts.skip(1)).len());
            }
            if rem > todo {
                front.advance(todo);
                self.bufs.push_front(front);
                proof {
                    assert(self.parts() =~= seq![parts[0].skip(todo as int)] + parts.skip(1));
                }
                return;
            }
            todo = todo - rem;
        }
    }

    /// The pieces of the first buffers, at most so many, for one vectored write.
    pub fn chunks_vectored(&self, max: usize) -> (pieces: Vec<&[u8]>)
        ensures
            slice_texts(pieces@) == pieces_of(self.segments(), max as nat),
    {
        let mut pieces: Vec<&[u8]> = Vec::new();
        let mut i: usize = 0;
        let ghost bufs = self.segments();
        let ghost all = pieces_of(bufs, max as nat);
        assert(bufs.skip(0) =~= bufs);
        assert(slice_texts(pieces@) + all =~= all);
        while i < self.bufs.len() && pieces.len() < max
            invariant
                i <= self.bufs.len(),
                pieces.len() <= max,
                bufs == self.bufs@,
                slice_texts(pieces@) + pieces_of(
                    bufs.skip(i as int),
                    (max - pieces.len()) as nat,
                ) == all,
            decreases self.bufs.len() - i,
        {
            let ghost before = slice_texts(pieces@);
            let room: usize = max - pieces.len();
            let mut more: Vec<&[u8]> = self.bufs[i].chunks(room);
            proof {
                let rest = bufs.skip(i as int);
                assert(rest[0] == bufs[i as int]);
                bufs[i as int].pieces_are_prefix(room as nat);
                assert(slice_texts(more@).len() == more.len());
                assert(rest.skip(1) =~= bufs.skip(i + 1));
                let next = pieces_of(rest.skip(1), (room - more.len()) as nat);
                assert(before + (slice_texts(more@) + next) =~= (before + slice_texts(more@))
                    + next);
            }
            let ghost added = more@;
            pieces.append(&mut more);
            assert(slice_texts(pieces@) =~= before + slice_texts(added));
            i = i + 1;
        }
        proof {
            let rest = bufs.skip(i as int);
            assert(pieces_of(rest, (max - pieces.len()) as nat) =~= Seq::<Seq<u8>>::empty());
            assert(slice_texts(pieces@) =~= all);
        }
        pieces
    }

    /// Takes bytes out at the front of the list; a single buffer is not copied.
    pub fn copy_to_bytes(&mut self, len: usize) -> (b: Bytes)
        requires
            old(self).wf(),
            len <= old(self).flat().len(),
            len <= isize::MAX,
        ensures
            content(b) == old(self).flat().take(len as int),
            final(self).wf(),
            final(self).parts() == without_front(old(self).parts(), len as nat),
            final(self).flat() == old(self).flat().skip(len as int),
    {
        let ghost parts = self.parts();
        proof {
            law_without_front(parts, len as nat);
        }
        if self.bufs.len() > 0 {
            let ghost bufs = self.bufs@;
            assert(parts[0] == bufs[0].left());
            let rem: usize = self.bufs[0].remaining();
            if rem >= len {
                let mut front: T = self.bufs.pop_front().unwrap();
                let b: Bytes = front.copy_to_bytes(len);
                proof {
                    assert(self.parts() =~= parts.skip(1));
                    assert(joined(parts).take(len as int) =~= parts[0].take(len as int));
                    assert(without_front(parts.skip(1), 0) == parts.skip(1));
                }
                if rem > len {
                    self.bufs.push_front(front);
                    proof {
                        assert(parts[0].skip(0) =~= parts[0]);
                        assert(self.parts() =~= seq![parts[0].skip(len as int)] + parts.skip(1));
                        assert(self.parts() =~= without_front(parts, len as nat));
                    }
                }
                return b;
            }
        }
        let mut bm: BytesMut = BytesMut::with_capacity(len);
        let mut limit: usize = len;
        assert(joined(parts).take(0) =~= Seq::<u8>::empty());
        while limit > 0
            invariant
                limit <= len,
                none_empty(parts),
                len <= joined(parts).len(),
                len <= isize::MAX,
                self.wf(),
                self.parts() == without_front(parts, (len - limit) as nat),
                self.flat() == joined(parts).skip(len - limit),
                content_mut(bm) == joined(parts).take(len - limit),
            decreases limit,
        {
            let ghost done = len - limit;
            let ghost here = self.flat();
            let n: usize = {
                let chunk: &[u8] = self.chunk();
                let n: usize = if chunk.len() < limit { chunk.len() } else { limit };
                bm.extend_from_slice(slice_subrange(chunk, 0, n));
                proof {
                    assert(chunk@.subrange(0, n as int) =~= here.take(n as int));
                    assert(joined(parts).take(done) + here.take(n as int) =~= joined(parts).take(
                        done + n,
                    ));
                }
                n
            };
            proof {
                law_without_front_twice(parts, done as nat, n as nat);
                assert(joined(parts).skip(done).skip(n as int) =~= joined(parts).skip(done + n));
            }
            self.advance(n);
            limit = limit - n;
        }
        bm.freeze()
    }
}

/// The bytes of some buffers are those of the first ones and then those of the others;
/// those of one buffer are its own.
pub proof fn law_bytes_of_buffers(a: Seq<Seq<u8>>, b: Seq<Seq<u8>>, one: Seq<u8>)
    ensures
        joined(Seq::empty()) == Seq::<u8>::empty(),
        joined(seq![one]) == one,
        joined(a + b) == joined(a) + joined(b),
{
    lemma_joined_concat(a, b);
    assert(seq![one].skip(1) =~= Seq::<Seq<u8>>::empty());
    assert(joined(seq![one].skip(1)) =~= Seq::<u8>::empty());
    assert(joined(seq![one]) =~= one);
}

/// Bytes that lie in one piece are handed out in one piece: all of them.
pub proof fn law_bytes_in_one_piece(b: Bytes, s: &[u8], max: nat)
    ensures
        b.left() == content(b),
        b.front() == content(b),
        max > 0 && content(b).len() > 0 ==> b.pieces(max) == seq![content(b)],
        max == 0 || content(b).len() == 0 ==> b.pieces(max).len() == 0,
        s.left() == s@,
        s.front() == s@,
        max > 0 && s@.len() > 0 ==> s.pieces(max) == seq![s@],
        max == 0 || s@.len() == 0 ==> s.pieces(max).len() == 0,
{
}

/// A list holds what its buffers hold, one by one and in their order.
pub proof fn law_parts_of_a_list<T: Segment>(list: BufList<T>, slices: Seq<&[u8]>, i: int)
    ensures
        list.parts().len() == list.segments().len(),
        0 <= i < list.segments().len() ==> list.parts()[i] == list.segments()[i].left(),
        list.flat() == joined(list.parts()),
        slice_texts(slices).len() == slices.len(),
        0 <= i < slices.len() ==> slice_texts(slices)[i] == slices[i]@,
{
}

} // verus!
