//! A channel of one small number: the receiver sees the last one that was sent,
//! and is woken when it changes. Both ends work on the number at any time, so the
//! contracts here say which calls on it are made and in which order, and not which
//! number they find.

use std::sync::atomic::{AtomicUsize, Ordering};
use std::sync::Arc;
use std::task::{Context, Waker};

use atomic_waker::AtomicWaker;
use vstd::prelude::*;

use crate::outside::std_sync::{context_waker, number_swap, numbers_set, SharedNumber};

verus! {

/// The number that says that the sender is gone.
pub const CLOSED: usize = 0;

/// The side that sets the number.
#[derive(Debug)]
pub struct Sender {
    shared: SharedNumber,
}

/// The side that reads the number.
#[derive(Debug)]
pub struct Receiver {
    shared: SharedNumber,
}

/// Whether the receiver is to be woken when one number takes the place of
/// another.
pub fn wakes(previous: usize, value: usize) -> (r: bool)
    ensures
        r == (previous != value),
{
    previous != value
}

/// A channel that holds a first number, which may not be [`CLOSED`].
pub fn channel(initial: usize) -> (r: (Sender, Receiver))
    requires
        initial != CLOSED,
    ensures
        r.0.starts_from(initial),
        r.0.reaches(r.1),
{
    let shared: SharedNumber = Arc::new((AtomicUsize::new(initial), AtomicWaker::new()));
    let other: SharedNumber = shared.clone();
    (Sender { shared: other }, Receiver { shared })
}

impl Sender {
    /// The channel is a new one that holds this number.
    pub closed spec fn starts_from(&self, initial: usize) -> bool {
        &&& call_ensures(AtomicUsize::new, (initial,), self.shared.0)
        &&& call_ensures(AtomicWaker::new, (), self.shared.1)
    }

    /// The receiver is that of this sender.
    pub closed spec fn reaches(&self, rx: Receiver) -> bool {
        self.shared == rx.shared
    }

    /// The numbers that it has set, each with the one that it took the place of.
    pub closed spec fn numbers(&self) -> Seq<(usize, usize)> {
        numbers_set(self.shared)
    }

    /// It wakes the receiver of another.
    pub closed spec fn same_waker(&self, other: Sender) -> bool {
        self.shared.1 == other.shared.1
    }

    /// The receiver was woken once this number was set.
    pub closed spec fn receiver_woken(&self, value: usize) -> bool {
        call_ensures(Sender::wake_receiver, (self, value), ())
    }

    /// The receiver was told one number, and no other: the number was set, and then
    /// the receiver was woken where that changed it.
    pub open spec fn tells(&self, after: Sender, value: usize) -> bool {
        after.same_waker(*self) && exists|previous: usize|
            after.numbers() == #[trigger] self.numbers().push((value, previous)) && (previous
                != value ==> after.receiver_woken(value))
    }

    /// Sets the number, and then wakes the receiver where that changes it.
    pub fn send(&mut self, value: usize)
        ensures
            old(self).tells(*final(self), value),
    {
        let previous: usize = number_swap(&mut self.shared, value);
        assert(self.numbers() == old(self).numbers().push((value, previous)));
        if wakes(previous, value) {
            self.wake_receiver(value);
        }
    }

    /// Wakes the receiver, once a number was set.
    fn wake_receiver(&self, value: usize)
        requires
            self.numbers().len() > 0,
            self.numbers().last().0 == value,
        ensures
            call_ensures(AtomicWaker::wake, (&self.shared.1,), ()),
    {
        self.shared.1.wake();
    }

    /// Tells the receiver that nothing more will be sent.
    pub fn close(&mut self)
        ensures
            old(self).tells(*final(self), CLOSED),
    {
        self.send(CLOSED);
    }
}

impl Receiver {
    /// The task of a context was registered, to be woken when the number changes.
    pub closed spec fn registered(&self, cx: Context<'_>) -> bool {
        exists|waker: &Waker| #[trigger]
            call_ensures(context_waker, (&cx,), waker) && call_ensures(
                AtomicWaker::register,
                (&self.shared.1, waker),
                (),
            )
    }

    /// Reading the number, once the task of a context is registered, can give this
    /// one.
    pub closed spec fn shows_registered(&self, cx: Context<'_>, value: usize) -> bool {
        call_ensures(Receiver::read_registered, (self, &cx), value)
    }

    /// Reading the number, in no particular order with other calls, can give this one.
    pub closed spec fn shows_relaxed(&self, value: usize) -> bool {
        call_ensures(AtomicUsize::load, (&self.shared.0, Ordering::Relaxed), value)
    }

    /// Reads the number; the task is woken when it changes. The task is registered
    /// before the number is read, so that no change is missed.
    pub fn load(&mut self, cx: &mut Context<'_>) -> (value: usize)
        ensures
            old(self).shows_registered(*old(cx), value),
            *final(self) == *old(self),
            *final(cx) == *old(cx),
    {
        self.shared.1.register(context_waker(cx));
        self.read_registered(cx)
    }

    /// Reads the number, once the task of a context is registered.
    fn read_registered(&self, cx: &Context<'_>) -> (value: usize)
        requires
            self.registered(*cx),
        ensures
            call_ensures(AtomicUsize::load, (&self.shared.0, Ordering::SeqCst), value),
    {
        self.shared.0.load(Ordering::SeqCst)
    }

    /// Reads the number.
    pub fn peek(&self) -> (value: usize)
        ensures
            self.shows_relaxed(value),
    {
        self.shared.0.load(Ordering::Relaxed)
    }
}

/// One number is told at a time: it comes behind those that were set before, and the
/// receiver was woken where it took the place of another.
pub proof fn law_one_number_is_told(before: Sender, after: Sender, value: usize)
    requires
        before.tells(after, value),
    ensures
        after.numbers().len() == before.numbers().len() + 1,
        after.numbers().drop_last() == before.numbers(),
        after.numbers().last().0 == value,
        after.numbers().last().1 != value ==> after.receiver_woken(value),
{
    let previous = choose|previous: usize|
        after.numbers() == #[trigger] before.numbers().push((value, previous)) && (previous
            != value ==> after.receiver_woken(value));
    assert(before.numbers().push((value, previous)).drop_last() =~= before.numbers());
}

// What is said of the two ends is said of the calls that are made on them.
proof fn law_calls(tx: Sender, rx: Receiver, cx: Context<'_>, value: usize)
    ensures
        tx.starts_from(value) ==> call_ensures(AtomicUsize::new, (value,), tx.shared.0),
        tx.reaches(rx) ==> tx.shared == rx.shared,
        tx.receiver_woken(value) ==> call_ensures(AtomicWaker::wake, (&tx.shared.1,), ()),
        rx.shows_registered(cx, value) ==> call_ensures(
            AtomicUsize::load,
            (&rx.shared.0, Ordering::SeqCst),
            value,
        ),
        rx.shows_relaxed(value) ==> call_ensures(
            AtomicUsize::load,
            (&rx.shared.0, Ordering::Relaxed),
            value,
        ),
        rx.registered(cx) ==> exists|waker: &Waker| #[trigger]
            call_ensures(context_waker, (&cx,), waker) && call_ensures(
                AtomicWaker::register,
                (&rx.shared.1, waker),
                (),
            ),
        tx.numbers() == numbers_set(tx.shared),
{
}

} // verus!
