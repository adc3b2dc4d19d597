//! One of two things.

use vstd::prelude::*;

verus! {

/// One of two futures.
#[allow(inconsistent_fields)]
#[derive(Debug)]
pub enum Either<F1, F2> {
    Left { fut: F1 },
    Right { fut: F2 },
}

impl<F1, F2> Either<F1, F2> {
    /// The first.
    pub fn left(fut: F1) -> (r: Either<F1, F2>)
        ensures
            r == (Either::<F1, F2>::Left { fut }),
    {
        Either::Left { fut }
    }

    /// The second.
    pub fn right(fut: F2) -> (r: Either<F1, F2>)
        ensures
            r == (Either::<F1, F2>::Right { fut }),
    {
        Either::Right { fut }
    }
}

} // verus!
