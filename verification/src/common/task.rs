//! The outcome of polling.

use std::task::{Context, Waker};

use vstd::prelude::*;

use crate::error::{Error, Kind, Result};
use crate::outside::std_sync::context_waker;

verus! {

/// What came of polling something that yields items, one after the other.
#[derive(Debug)]
pub enum Polled<T, E> {
    /// Nothing yet; the task will be woken.
    Pending,
    /// Nothing more will come.
    End,
    /// An item.
    Item(T),
    /// A failure.
    Failed(E),
}

/// Whether this is what came of waiting for a channel to be ready; where it failed,
/// the channel is closed.
pub open spec fn ready_or_closed_is(polled: Polled<(), ()>, r: Polled<(), Error>) -> bool {
    match polled {
        Polled::Pending => r is Pending,
        Polled::Failed(_) => r is Failed && r->Failed_0.is_bare(Kind::ChannelClosed),
        _ => r is Item,
    }
}

/// What came of waiting for a channel to be ready; where it failed, the channel is
/// closed.
pub fn ready_or_closed(polled: Polled<(), ()>) -> (r: Polled<(), Error>)
    requires
        !(polled is End),
    ensures
        ready_or_closed_is(polled, r),
{
    match polled {
        Polled::Pending => Polled::Pending,
        Polled::Failed(_) => Polled::Failed(Error::new_closed()),
        _ => Polled::Item(()),
    }
}

/// What came of sending on a channel; where it failed, the channel is closed.
pub fn sent_or_closed<E>(sent: std::result::Result<(), E>) -> (r: Result<()>)
    ensures
        sent is Ok <==> r is Ok,
        sent is Err ==> r->Err_0.is_bare(Kind::ChannelClosed),
{
    match sent {
        Ok(()) => Ok(()),
        Err(_) => Err(Error::new_closed()),
    }
}

/// Whether the task of a context was woken: a call that wakes it has come back.
pub closed spec fn task_woken(cx: Context<'_>) -> bool {
    exists|waker: &Waker| #[trigger]
        call_ensures(context_waker, (&cx,), waker) && call_ensures(Waker::wake_by_ref, (waker,), ())
}

/// Lets other tasks go first: the task is woken at once, and waits.
pub fn yield_now(cx: &mut Context<'_>) -> (r: Polled<(), ()>)
    ensures
        r is Pending,
        task_woken(*old(cx)),
        *final(cx) == *old(cx),
{
    context_waker(cx).wake_by_ref();
    Polled::Pending
}

/// A channel that was waited for is ready, not ready yet or closed as the wait found
/// it.
pub proof fn law_ready_or_closed(polled: Polled<(), ()>, r: Polled<(), Error>)
    requires
        ready_or_closed_is(polled, r),
        !(polled is End),
    ensures
        r is Pending <==> polled is Pending,
        r is Item <==> polled is Item,
        r is Failed <==> polled is Failed,
        r is Failed ==> r->Failed_0.spec_kind() == Kind::ChannelClosed,
{
}

// A task was woken by a call on its own waker.
proof fn law_woken_tasks(cx: Context<'_>)
    requires
        task_woken(cx),
    ensures
        exists|waker: &Waker| #[trigger]
            call_ensures(context_waker, (&cx,), waker) && call_ensures(
                Waker::wake_by_ref,
                (waker,),
                (),
            ),
{
}

} // verus!
