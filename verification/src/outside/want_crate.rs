//! Items of the `want` crate: one side says that it wants a message, the other
//! sees it.

use std::task::{Context, Poll};

use vstd::prelude::*;
use want::{Giver, SharedGiver, Taker};

use crate::common::task::Polled;

verus! {

/// `want::Giver`, the side that gives.
#[verifier::external_type_specification]
#[verifier::external_body]
pub struct ExGiver(Giver);

/// `want::SharedGiver`, a side that gives and can be shared.
#[verifier::external_type_specification]
#[verifier::external_body]
pub struct ExSharedGiver(SharedGiver);

/// `want::Taker`, the side that wants.
#[verifier::external_type_specification]
#[verifier::external_body]
pub struct ExTaker(Taker);

/// Whether a taker has canceled. Only the taker itself can.
pub uninterp spec fn taker_canceled(t: Taker) -> bool;

/// How often a taker has asked for a message.
pub uninterp spec fn taker_wants(t: Taker) -> nat;

/// `want::new`: a giver, and a taker that has neither asked nor canceled.
#[verifier::external_body]
pub(crate) fn want_new() -> (r: (Giver, Taker))
    ensures
        !taker_canceled(r.1),
        taker_wants(r.1) == 0,
{
    want::new()
}

/// What the calls of `give` of a giver found, the first first.
pub uninterp spec fn giver_gives(g: Giver) -> Seq<bool>;

/// `Giver::give`: whether the taker wanted a message, which depends on the taker; if
/// so, it counts as given, and the taker has to ask anew.
#[verifier::external_body]
pub(crate) fn giver_give(giver: &mut Giver) -> (given: bool)
    ensures
        giver_gives(*final(giver)) == giver_gives(*old(giver)).push(given),
{
    giver.give()
}

/// `Giver::is_wanting`: whether the taker wants a message, which depends on the
/// taker.
pub assume_specification[ Giver::is_wanting ](giver: &Giver) -> bool;

/// `Giver::is_canceled`: whether the taker has canceled, which depends on the taker.
pub assume_specification[ Giver::is_canceled ](giver: &Giver) -> bool;

/// `Giver::shared`: the same giver, to be shared.
pub assume_specification[ Giver::shared ](giver: Giver) -> SharedGiver;

/// `Giver::poll_want`: waits until the taker wants a message; it fails where the
/// taker has canceled, and never ends. Which of these it is depends on the taker.
#[verifier::external_body]
pub(crate) fn giver_poll_want(giver: &mut Giver, cx: &mut Context<'_>) -> (r: Polled<(), ()>)
    ensures
        !(r is End),
        giver_gives(*final(giver)) == giver_gives(*old(giver)),
{
    match giver.poll_want(cx) {
        Poll::Pending => Polled::Pending,
        Poll::Ready(Ok(())) => Polled::Item(()),
        Poll::Ready(Err(_)) => Polled::Failed(()),
    }
}

/// `SharedGiver::is_canceled`: whether the taker has canceled, which depends on the
/// taker.
pub assume_specification[ SharedGiver::is_canceled ](giver: &SharedGiver) -> bool;

/// `Clone for SharedGiver`: the same giver.
#[verifier::external_body]
pub(crate) fn shared_giver_clone(giver: &SharedGiver) -> (r: SharedGiver) {
    giver.clone()
}

/// `Taker::want`: tells the giver that a message is wanted. It may panic after a
/// cancel.
pub assume_specification[ Taker::want ](taker: &mut Taker)
    requires
        !taker_canceled(*old(taker)),
    ensures
        !taker_canceled(*final(taker)),
        taker_wants(*final(taker)) == taker_wants(*old(taker)) + 1,
;

/// `Taker::cancel`: tells the giver that no message is wanted any more.
pub assume_specification[ Taker::cancel ](taker: &mut Taker)
    ensures
        taker_canceled(*final(taker)),
        taker_wants(*final(taker)) == taker_wants(*old(taker)),
;

} // verus!
