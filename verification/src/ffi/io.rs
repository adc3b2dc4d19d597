//! Transports of the C interface.

use vstd::prelude::*;

use crate::common::task::Polled;

verus! {

/// What a read or write callback returns when it has to wait.
pub const HYPER_IO_PENDING: usize = 0xFFFFFFFF;

/// What a read or write callback returns when it failed.
pub const HYPER_IO_ERROR: usize = 0xFFFFFFFE;

/// What the return value of a read or write callback means: it has to wait, it
/// failed, or it moved so many bytes.
pub open spec fn spec_io_outcome(ret: usize) -> Polled<usize, ()> {
    if ret == HYPER_IO_PENDING {
        Polled::Pending
    } else if ret == HYPER_IO_ERROR {
        Polled::Failed(())
    } else {
        Polled::Item(ret)
    }
}

/// What the return value of a read or write callback means.
pub fn io_outcome(ret: usize) -> (r: Polled<usize, ()>)
    ensures
        r == spec_io_outcome(ret),
{
    if ret == HYPER_IO_PENDING {
        Polled::Pending
    } else if ret == HYPER_IO_ERROR {
        Polled::Failed(())
    } else {
        Polled::Item(ret)
    }
}

/// The text of the error of a callback that failed.
pub fn io_error_text() -> (text: &'static str)
    ensures
        text@ == "io error"@,
{
    "io error"
}

/// What a transport without callbacks reads or writes: nothing.
pub fn io_noop() -> (n: usize)
    ensures
        n == 0,
        spec_io_outcome(n) == Polled::<usize, ()>::Item(0),
{
    0
}

/// What a callback returns is a wait (0xFFFFFFFF), a failure (0xFFFFFFFE), or a number of
/// bytes, which is kept.
pub proof fn law_return_values(ret: usize)
    ensures
        spec_io_outcome(ret) is Pending <==> ret == 0xFFFFFFFF,
        spec_io_outcome(ret) is Failed <==> ret == 0xFFFFFFFE,
        ret != 0xFFFFFFFF && ret != 0xFFFFFFFE ==> spec_io_outcome(ret) == Polled::<
            usize,
            (),
        >::Item(ret),
{
}

} // verus!
