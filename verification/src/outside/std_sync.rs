//! Tasks, wakers and shared numbers: items of `std::task`, of `std::sync` and of the
//! `atomic-waker` crate.

use atomic_waker::AtomicWaker;
use std::sync::atomic::{AtomicUsize, Ordering};
use std::sync::Arc;
use std::task::{Context, Waker};
use vstd::prelude::*;

verus! {

/// `std::task::Context`.
#[verifier::external_type_specification]
#[verifier::external_body]
pub struct ExContext<'a>(Context<'a>);

/// A handle of a shared number, and of the waker of the task that waits for it to
/// change.
pub type SharedNumber = Arc<(AtomicUsize, AtomicWaker)>;

/// The numbers that were set through a handle of a shared number, the first first,
/// each with the one that it took the place of.
pub uninterp spec fn numbers_set(shared: SharedNumber) -> Seq<(usize, usize)>;

/// `AtomicUsize::swap`, in one order with all other calls: sets the number, and gives
/// the one that it took the place of. Which one that is depends on the other handles.
/// The waker stays.
#[verifier::external_body]
pub(crate) fn number_swap(shared: &mut SharedNumber, value: usize) -> (previous: usize)
    ensures
        numbers_set(*final(shared)) == numbers_set(*old(shared)).push((value, previous)),
        final(shared).1 == old(shared).1,
{
    shared.0.swap(value, Ordering::SeqCst)
}

/// `atomic_waker::AtomicWaker`.
#[verifier::external_type_specification]
#[verifier::external_body]
pub struct ExAtomicWaker(AtomicWaker);

/// `AtomicWaker::new`: holds no waker.
pub assume_specification[ AtomicWaker::new ]() -> AtomicWaker;

/// `AtomicWaker::wake`: wakes the task that registered last, if any did.
pub assume_specification[ AtomicWaker::wake ](waker: &AtomicWaker);

/// `AtomicWaker::register`: the task of the waker is the one to wake from now on.
pub assume_specification[ AtomicWaker::register ](atomic: &AtomicWaker, waker: &Waker);

/// `std::task::Waker`.
#[verifier::external_type_specification]
#[verifier::external_body]
pub struct ExWaker(Waker);

/// `Context::waker`: the waker of the task.
#[verifier::external_body]
pub(crate) fn context_waker<'a>(cx: &'a Context<'_>) -> (r: &'a Waker) {
    cx.waker()
}

/// `Clone for Waker`: another waker of the same task.
#[verifier::external_body]
pub(crate) fn waker_clone(waker: &Waker) -> (r: Waker) {
    waker.clone()
}

/// `Waker::wake`: wakes the task.
pub assume_specification[ Waker::wake ](waker: Waker);

/// `Waker::wake_by_ref`: wakes the task.
pub assume_specification[ Waker::wake_by_ref ](waker: &Waker);

} // verus!
