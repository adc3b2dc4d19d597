//! A transport of one kind that is used as one of another.

use vstd::prelude::*;

verus! {

/// A transport that is used as one of another kind.
#[derive(Debug)]
pub struct Compat<T>(pub T);

/// How far a buffer is initialized, and how far it is filled.
#[derive(Debug, Clone, Copy, PartialEq, Eq, Structural)]
pub struct BufState {
    pub init: usize,
    pub filled: usize,
}

impl<T> Compat<T> {
    /// Wraps a transport.
    pub fn new(io: T) -> (r: Compat<T>)
        ensures
            r.0 == io,
    {
        Compat(io)
    }
}

/// What a read that went through another buffer does to this one: the bytes that
/// are newly initialized, and how far it is filled.
pub fn after_read(before: BufState, after: BufState) -> (r: (usize, usize))
    requires
        before.init <= after.init,
    ensures
        before.init + r.0 == after.init,
        r.1 == after.filled,
{
    (after.init - before.init, after.filled)
}

} // verus!
