//! A transport to which bytes that were read from it can be given back.

use bytes::Bytes;
use vstd::prelude::*;

use crate::outside::bytes_crate::{bytes_copy_to_bytes, content};

verus! {

/// A transport, and bytes that are read before those of the transport.
#[derive(Debug)]
pub struct Rewind<T> {
    pre: Option<Bytes>,
    inner: T,
}

/// The lesser of two lengths.
pub open spec fn lesser(a: nat, b: nat) -> nat {
    if a <= b {
        a
    } else {
        b
    }
}

impl<T> Rewind<T> {
    /// The bytes that are read before those of the transport.
    pub closed spec fn prefix(&self) -> Seq<u8> {
        match self.pre {
            Some(b) => content(b),
            None => Seq::empty(),
        }
    }

    /// Whether bytes were given back that are not used up.
    pub closed spec fn is_rewound(&self) -> bool {
        self.pre is Some
    }

    /// The transport.
    pub closed spec fn io(&self) -> T {
        self.inner
    }

    /// A transport to which nothing was given back.
    pub fn new(io: T) -> (r: Rewind<T>)
        ensures
            !r.is_rewound(),
            r.prefix() == Seq::<u8>::empty(),
            r.io() == io,
    {
        Rewind { pre: None, inner: io }
    }

    /// A transport to which some bytes were given back.
    pub fn new_buffered(io: T, buf: Bytes) -> (r: Rewind<T>)
        ensures
            r.is_rewound(),
            r.prefix() == content(buf),
            r.io() == io,
    {
        Rewind { pre: Some(buf), inner: io }
    }

    /// Gives bytes back, where none are waiting to be read.
    pub fn rewind(&mut self, bs: Bytes)
        requires
            !old(self).is_rewound(),
        ensures
            final(self).is_rewound(),
            final(self).prefix() == content(bs),
            final(self).io() == old(self).io(),
    {
        self.pre = Some(bs);
    }

    /// The transport, and the bytes that were given back and not read.
    pub fn into_inner(self) -> (r: (T, Bytes))
        ensures
            r.0 == self.io(),
            content(r.1) == self.prefix(),
    {
        let rest: Bytes = match self.pre {
            Some(b) => b,
            None => Bytes::new(),
        };
        (self.inner, rest)
    }

    /// The transport, to be looked at.
    pub fn inner_ref(&self) -> (io: &T)
        ensures
            *io == self.io(),
    {
        &self.inner
    }

    /// The transport, to be read from or written to.
    pub fn inner_mut(&mut self) -> (io: &mut T)
        ensures
            *io == old(self).io(),
            final(self).io() == *final(io),
            final(self).prefix() == old(self).prefix(),
            final(self).is_rewound() == old(self).is_rewound(),
    {
        &mut self.inner
    }

    /// Reads bytes that were given back, as many as there is room for. Where there
    /// are none, the transport is to be read.
    pub fn read_prefix(&mut self, room: usize) -> (r: Option<Bytes>)
        ensures
            r is Some <==> old(self).prefix().len() > 0,
            r is Some ==> content(r->0) == old(self).prefix().take(
                lesser(old(self).prefix().len(), room as nat) as int,
            ),
            r is Some ==> final(self).prefix() == old(self).prefix().skip(
                lesser(old(self).prefix().len(), room as nat) as int,
            ),
            r is None ==> final(self).prefix() == old(self).prefix(),
            final(self).is_rewound() <==> final(self).prefix().len() > 0,
            final(self).io() == old(self).io(),
    {
        if let Some(mut prefix) = self.pre.take() {
            if !prefix.is_empty() {
                let copy_len: usize = if prefix.len() <= room {
                    prefix.len()
                } else {
                    room
                };
                let chunk: Bytes = bytes_copy_to_bytes(&mut prefix, copy_len);
                if !prefix.is_empty() {
                    self.pre = Some(prefix);
                } else {
                    assert(content(prefix) =~= Seq::<u8>::empty());
                }
                return Some(chunk);
            }
            assert(content(prefix) =~= Seq::<u8>::empty());
        }
        None
    }
}

/// What reads with room for so many bytes each get of some bytes that were given
/// back.
pub open spec fn bytes_read(prefix: Seq<u8>, rooms: Seq<nat>) -> Seq<u8>
    decreases rooms.len(),
{
    if rooms.len() == 0 {
        Seq::empty()
    } else {
        let n = lesser(prefix.len(), rooms[0]) as int;
        prefix.take(n) + bytes_read(prefix.skip(n), rooms.skip(1))
    }
}

/// The bytes that such reads leave.
pub open spec fn bytes_left(prefix: Seq<u8>, rooms: Seq<nat>) -> Seq<u8>
    decreases rooms.len(),
{
    if rooms.len() == 0 {
        prefix
    } else {
        bytes_left(prefix.skip(lesser(prefix.len(), rooms[0]) as int), rooms.skip(1))
    }
}

/// Bytes that were given back are read again, in their order and before those of
/// the transport: what reads get, with what they leave, is what was given back.
pub proof fn law_rewound_bytes_are_read_again(prefix: Seq<u8>, rooms: Seq<nat>)
    ensures
        bytes_read(prefix, rooms) + bytes_left(prefix, rooms) == prefix,
    decreases rooms.len(),
{
    if rooms.len() == 0 {
        assert(bytes_read(prefix, rooms) + bytes_left(prefix, rooms) =~= prefix);
    } else {
        let n = lesser(prefix.len(), rooms[0]) as int;
        let rest = prefix.skip(n);
        law_rewound_bytes_are_read_again(rest, rooms.skip(1));
        assert(bytes_read(prefix, rooms) + bytes_left(prefix, rooms) =~= prefix.take(n) + (
        bytes_read(rest, rooms.skip(1)) + bytes_left(rest, rooms.skip(1))));
        assert(prefix.take(n) + rest =~= prefix);
    }
}

/// A read gets as many bytes as there are and as there is room for, whichever is less,
/// and they are the first ones.
pub proof fn law_reads_fill_their_room(prefix: Seq<u8>, room: nat)
    ensures
        lesser(prefix.len(), room) <= prefix.len(),
        lesser(prefix.len(), room) <= room,
        lesser(prefix.len(), room) == prefix.len() || lesser(prefix.len(), room) == room,
        prefix.len() <= room ==> bytes_read(prefix, seq![room]) == prefix,
        prefix.len() > room ==> bytes_read(prefix, seq![room]) == prefix.take(room as int),
{
    let n = lesser(prefix.len(), room) as int;
    let rooms = seq![room];
    assert(rooms.skip(1) =~= Seq::<nat>::empty());
    assert(bytes_read(prefix.skip(n), rooms.skip(1)) =~= Seq::<u8>::empty());
    assert(bytes_read(prefix, rooms) =~= prefix.take(n));
    if prefix.len() <= room {
        assert(prefix.take(n) =~= prefix);
    }
}

} // verus!
