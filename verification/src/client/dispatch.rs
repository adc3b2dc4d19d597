//! Hands requests from a client to its connection, and the replies back.

use std::task::Context;

use tokio::sync::{mpsc, oneshot};
use vstd::prelude::*;
use vstd::string::StringExecFns;
use want::{Giver, SharedGiver, Taker};

use crate::common::task::{ready_or_closed, ready_or_closed_is, Polled};
use crate::error::{Cause, Error, Kind, Result, User};
use crate::outside::tokio_crate::{
    queue_channel, queue_close, queue_poll_recv, queue_recv_now, queue_send, queue_sender_clone,
    queue_take, reply_channel, reply_is_closed, reply_poll_closed, reply_send,
};
use crate::outside::want_crate::{
    giver_give, giver_gives, giver_poll_want, shared_giver_clone, taker_canceled, taker_wants,
    want_new,
};

verus! {

/// A reply that comes with the request where it failed before the request was
/// sent.
pub type RetryPromise<T, U> = oneshot::Receiver<std::result::Result<U, TrySendError<T>>>;

/// A reply.
pub type Promise<U> = oneshot::Receiver<Result<U>>;

/// Why a request could not be sent, and the request itself where it was not sent
/// at all.
#[derive(Debug)]
pub struct TrySendError<T> {
    pub(crate) error: Error,
    pub(crate) message: Option<T>,
}

impl<T> TrySendError<T> {
    /// What went wrong.
    pub closed spec fn spec_error(&self) -> Error {
        self.error
    }

    /// The request that was not sent.
    pub closed spec fn spec_message(&self) -> Option<T> {
        self.message
    }

    /// An error, and the request that was not sent.
    pub fn new(error: Error, message: Option<T>) -> (r: TrySendError<T>)
        ensures
            r.spec_error() == error,
            r.spec_message() == message,
    {
        TrySendError { error, message }
    }

    /// Takes the request out, where it is there.
    pub fn take_message(&mut self) -> (message: Option<T>)
        ensures
            message == old(self).spec_message(),
            final(self).spec_message() is None,
            final(self).spec_error() == old(self).spec_error(),
    {
        self.message.take()
    }

    /// The request, where it is there.
    pub fn message(&self) -> (message: Option<&T>)
        ensures
            message is Some <==> self.spec_message() is Some,
            message is Some ==> *message->0 == self.spec_message()->0,
    {
        self.message.as_ref()
    }

    /// What went wrong, without the request.
    pub fn into_error(self) -> (error: Error)
        ensures
            error == self.spec_error(),
    {
        self.error
    }

    /// What went wrong.
    pub fn error(&self) -> (error: &Error)
        ensures
            *error == self.spec_error(),
    {
        &self.error
    }
}

/// A sender and a receiver of requests.
pub fn channel<T, U>() -> (r: (Sender<T, U>, Receiver<T, U>))
    ensures
        r.0.feeds(r.1),
        !r.0.has_sent(),
        r.1.wf(),
        !r.1.is_closed(),
        r.1.asked() == 0,
{
    let (tx, rx) = queue_channel();
    let (giver, taker) = want_new();
    (
        Sender { buffered_once: false, giver, inner: tx },
        Receiver { inner: rx, taker, closed: false },
    )
}

/// Sends requests one at a time: the receiver must have asked for each, but for
/// the first.
#[verifier::reject_recursive_types(T)]
#[verifier::reject_recursive_types(U)]
pub struct Sender<T, U> {
    buffered_once: bool,
    giver: Giver,
    inner: mpsc::UnboundedSender<Envelope<T, U>>,
}

/// Sends requests without waiting for the receiver to ask.
#[verifier::reject_recursive_types(T)]
#[verifier::reject_recursive_types(U)]
pub struct UnboundedSender<T, U> {
    giver: SharedGiver,
    inner: mpsc::UnboundedSender<Envelope<T, U>>,
}

/// Receives requests, each with the way to reply.
#[verifier::reject_recursive_types(T)]
#[verifier::reject_recursive_types(U)]
pub struct Receiver<T, U> {
    inner: mpsc::UnboundedReceiver<Envelope<T, U>>,
    taker: Taker,
    closed: bool,
}

/// A request, and the way to reply to it.
#[verifier::reject_recursive_types(T)]
#[verifier::reject_recursive_types(U)]
pub struct Envelope<T, U>(pub T, pub Callback<T, U>);

/// The way to reply to a request.
#[verifier::reject_recursive_types(T)]
#[verifier::reject_recursive_types(U)]
pub enum Callback<T, U> {
    /// With the request, where it failed before it was sent.
    Retry(oneshot::Sender<std::result::Result<U, TrySendError<T>>>),
    /// Without it.
    NoRetry(oneshot::Sender<Result<U>>),
}

/// A reply as it goes to the one who waits for it.
pub enum Reply<T, U> {
    Retry(std::result::Result<U, TrySendError<T>>),
    NoRetry(Result<U>),
}

/// Whether a request may go out: the receiver has just asked for one, or none
/// went out yet.
pub open spec fn may_send(buffered_once: bool, given: bool) -> bool {
    given || !buffered_once
}

/// The promise of a reply to a request that was sent, or the request where it was
/// not.
pub open spec fn spec_delivered<T, U, P>(
    sent: std::result::Result<(), Envelope<T, U>>,
    promise: P,
) -> std::result::Result<P, T> {
    match sent {
        Ok(()) => Ok(promise),
        Err(envelope) => Err(envelope.0),
    }
}

/// Sending a request into a queue, with the way to reply that has the request back,
/// can come to this: the request goes out with one end of a new channel, and the
/// promise is the other end.
spec fn queued_with_retry<T, U>(
    tx: mpsc::UnboundedSender<Envelope<T, U>>,
    val: T,
    r: std::result::Result<RetryPromise<T, U>, T>,
) -> bool {
    exists|
        reply: oneshot::Sender<std::result::Result<U, TrySendError<T>>>,
        promise: RetryPromise<T, U>,
        sent: std::result::Result<(), Envelope<T, U>>,
    |
        #[trigger] call_ensures(
            reply_channel::<std::result::Result<U, TrySendError<T>>>,
            (),
            (reply, promise),
        ) && #[trigger] call_ensures(
            queue_send::<Envelope<T, U>>,
            (&tx, Envelope(val, Callback::Retry(reply))),
            sent,
        ) && r == spec_delivered(sent, promise)
}

/// Sending a request into a queue, with the way to reply without the request, can
/// come to this: the request goes out with one end of a new channel, and the promise
/// is the other end.
spec fn queued<T, U>(
    tx: mpsc::UnboundedSender<Envelope<T, U>>,
    val: T,
    r: std::result::Result<Promise<U>, T>,
) -> bool {
    exists|
        reply: oneshot::Sender<Result<U>>,
        promise: Promise<U>,
        sent: std::result::Result<(), Envelope<T, U>>,
    |
        #[trigger] call_ensures(reply_channel::<Result<U>>, (), (reply, promise))
            && #[trigger] call_ensures(
            queue_send::<Envelope<T, U>>,
            (&tx, Envelope(val, Callback::NoRetry(reply))),
            sent,
        ) && r == spec_delivered(sent, promise)
}

/// The promise of a reply to a request that was sent, or the request where it was
/// not.
pub fn delivered<T, U, P>(sent: std::result::Result<(), Envelope<T, U>>, promise: P) -> (r:
    std::result::Result<P, T>)
    ensures
        r == spec_delivered(sent, promise),
{
    match sent {
        Ok(()) => Ok(promise),
        Err(envelope) => Err(envelope.0),
    }
}

/// Polling a giver whether its taker waits can give this.
pub closed spec fn polls_want(
    giver: &mut Giver,
    cx: &mut Context<'_>,
    polled: Polled<(), ()>,
) -> bool {
    call_ensures(giver_poll_want, (giver, cx), polled)
}

impl<T, U> Sender<T, U> {
    /// Whether a request went out before.
    pub closed spec fn has_sent(&self) -> bool {
        self.buffered_once
    }

    /// The side that gives what the receiver wants.
    pub closed spec fn giver_end(&self) -> Giver {
        self.giver
    }

    /// The end of the queue that requests are put in.
    pub closed spec fn queue_end(&self) -> mpsc::UnboundedSender<Envelope<T, U>> {
        self.inner
    }

    /// It belongs to a receiver: both are made of the two ends of one queue, and of
    /// the two sides of one want.
    pub closed spec fn feeds(&self, rx: Receiver<T, U>) -> bool {
        &&& call_ensures(queue_channel::<Envelope<T, U>>, (), (self.inner, rx.inner))
        &&& call_ensures(want_new, (), (self.giver, rx.taker))
    }

    /// Looking whether the receiver waits for a request can give this.
    pub closed spec fn sees_want(&self, r: bool) -> bool {
        call_ensures(Giver::is_wanting, (&self.giver,), r)
    }

    /// Looking whether the receiver is gone can give this.
    pub closed spec fn sees_cancel(&self, r: bool) -> bool {
        call_ensures(Giver::is_canceled, (&self.giver,), r)
    }

    /// What it found when it looked, before each request, whether the receiver had
    /// just asked for one; to find that uses the asking up.
    pub closed spec fn gave(&self) -> Seq<bool> {
        giver_gives(self.giver)
    }

    /// Handing a request to the queue can come to this.
    pub closed spec fn queues_with_retry(
        &self,
        val: T,
        r: std::result::Result<RetryPromise<T, U>, T>,
    ) -> bool {
        queued_with_retry(self.inner, val, r)
    }

    /// Handing a request to the queue can come to this.
    pub closed spec fn queues(&self, val: T, r: std::result::Result<Promise<U>, T>) -> bool {
        queued(self.inner, val, r)
    }

    /// Sending a request can come to this, and makes another of the sender: it is looked
    /// once whether the receiver has just asked, and the queue is handed the request
    /// only where it may go out.
    pub open spec fn sends_with_retry(
        &self,
        after: Sender<T, U>,
        val: T,
        r: std::result::Result<RetryPromise<T, U>, T>,
    ) -> bool {
        &&& after.has_sent()
        &&& after.queue_end() == self.queue_end()
        &&& exists|given: bool|
            after.gave() == #[trigger] self.gave().push(given) && if may_send(
                self.has_sent(),
                given,
            ) {
                self.queues_with_retry(val, r)
            } else {
                r == Err::<RetryPromise<T, U>, T>(val)
            }
    }

    /// Sending a request can come to this, and makes another of the sender: it is looked
    /// once whether the receiver has just asked, and the queue is handed the request
    /// only where it may go out.
    pub open spec fn sends(
        &self,
        after: Sender<T, U>,
        val: T,
        r: std::result::Result<Promise<U>, T>,
    ) -> bool {
        &&& after.has_sent()
        &&& after.queue_end() == self.queue_end()
        &&& exists|given: bool|
            after.gave() == #[trigger] self.gave().push(given) && if may_send(
                self.has_sent(),
                given,
            ) {
                self.queues(val, r)
            } else {
                r == Err::<Promise<U>, T>(val)
            }
    }

    /// Waits until the receiver asks for a request.
    pub fn poll_ready(&mut self, cx: &mut Context<'_>) -> (r: Polled<(), Error>)
        ensures
            exists|giver: &mut Giver, c: &mut Context<'_>, polled: Polled<(), ()>|
                *giver == old(self).giver_end() && *final(giver) == final(self).giver_end() && *c
                    == *old(cx) && *final(c) == *final(cx) && #[trigger] polls_want(
                    giver,
                    c,
                    polled,
                ) && ready_or_closed_is(polled, r),
            final(self).queue_end() == old(self).queue_end(),
            final(self).has_sent() == old(self).has_sent(),
            final(self).gave() == old(self).gave(),
            !(r is End),
    {
        proof {
            lemma_calls::<T, U>();
        }
        let polled = giver_poll_want(&mut self.giver, cx);
        ready_or_closed(polled)
    }

    /// Whether the receiver has asked for a request.
    pub fn is_ready(&self) -> (r: bool)
        ensures
            self.sees_want(r),
    {
        self.giver.is_wanting()
    }

    /// Whether the receiver is gone.
    pub fn is_closed(&self) -> (r: bool)
        ensures
            self.sees_cancel(r),
    {
        self.giver.is_canceled()
    }

    /// Decides whether a request may go out, given whether the receiver has just
    /// asked for one.
    pub fn can_send_given(&mut self, given: bool) -> (r: bool)
        ensures
            r == may_send(old(self).has_sent(), given),
            final(self).has_sent(),
            final(self).queue_end() == old(self).queue_end(),
            final(self).giver_end() == old(self).giver_end(),
            final(self).gave() == old(self).gave(),
    {
        if given || !self.buffered_once {
            self.buffered_once = true;
            true
        } else {
            false
        }
    }

    fn can_send(&mut self) -> (r: bool)
        ensures
            exists|given: bool|
                final(self).gave() == #[trigger] old(self).gave().push(given) && r == may_send(
                    old(self).has_sent(),
                    given,
                ),
            final(self).has_sent(),
            final(self).queue_end() == old(self).queue_end(),
    {
        let given: bool = giver_give(&mut self.giver);
        assert(self.gave() == old(self).gave().push(given));
        self.can_send_given(given)
    }

    /// Sends a request, to get it back with the error where it fails before it was
    /// sent. A request that may not go out, or that nobody receives, is given back.
    pub fn try_send(&mut self, val: T) -> (r: std::result::Result<RetryPromise<T, U>, T>)
        ensures
            old(self).sends_with_retry(*final(self), val, r),
            r is Err ==> r->Err_0 == val,
    {
        if !self.can_send() {
            return Err(val);
        }
        let (tx, rx) = reply_channel();
        let sent = queue_send(&self.inner, Envelope(val, Callback::Retry(tx)));
        delivered(sent, rx)
    }

    /// Sends a request. A request that may not go out, or that nobody receives, is
    /// given back.
    pub fn send(&mut self, val: T) -> (r: std::result::Result<Promise<U>, T>)
        ensures
            old(self).sends(*final(self), val, r),
            r is Err ==> r->Err_0 == val,
    {
        if !self.can_send() {
            return Err(val);
        }
        let (tx, rx) = reply_channel();
        let sent = queue_send(&self.inner, Envelope(val, Callback::NoRetry(tx)));
        delivered(sent, rx)
    }

    /// Letting go of the waiting can give this sender: it sends into the same queue.
    pub closed spec fn unbinds(&self, r: UnboundedSender<T, U>) -> bool {
        &&& call_ensures(Giver::shared, (self.giver,), r.giver)
        &&& r.inner == self.inner
    }

    /// The same sender, without waiting for the receiver to ask.
    pub fn unbound(self) -> (r: UnboundedSender<T, U>)
        ensures
            self.unbinds(r),
    {
        UnboundedSender { giver: self.giver.shared(), inner: self.inner }
    }
}

impl<T, U> UnboundedSender<T, U> {
    /// Another sender is made of clones of what this one is made of.
    pub closed spec fn twin(&self, other: UnboundedSender<T, U>) -> bool {
        &&& call_ensures(shared_giver_clone, (&self.giver,), other.giver)
        &&& call_ensures(queue_sender_clone::<Envelope<T, U>>, (&self.inner,), other.inner)
    }

    /// Looking whether the receiver is gone can give this.
    pub closed spec fn sees_cancel(&self, r: bool) -> bool {
        call_ensures(SharedGiver::is_canceled, (&self.giver,), r)
    }

    /// Sending a request can come to this.
    pub closed spec fn sends_with_retry(
        &self,
        val: T,
        r: std::result::Result<RetryPromise<T, U>, T>,
    ) -> bool {
        queued_with_retry(self.inner, val, r)
    }

    /// Sending a request can come to this.
    pub closed spec fn sends(&self, val: T, r: std::result::Result<Promise<U>, T>) -> bool {
        queued(self.inner, val, r)
    }

    /// Whether requests can be sent: the receiver is not gone.
    pub fn is_ready(&self) -> (r: bool)
        ensures
            self.sees_cancel(!r),
    {
        !self.giver.is_canceled()
    }

    /// Whether the receiver is gone.
    pub fn is_closed(&self) -> (r: bool)
        ensures
            self.sees_cancel(r),
    {
        self.giver.is_canceled()
    }

    /// Sends a request, to get it back with the error where it fails before it was
    /// sent. A request that nobody receives is given back.
    pub fn try_send(&mut self, val: T) -> (r: std::result::Result<RetryPromise<T, U>, T>)
        ensures
            old(self).sends_with_retry(val, r),
            r is Err ==> r->Err_0 == val,
            *final(self) == *old(self),
    {
        let (tx, rx) = reply_channel();
        let sent = queue_send(&self.inner, Envelope(val, Callback::Retry(tx)));
        delivered(sent, rx)
    }

    /// Sends a request. A request that nobody receives is given back.
    pub fn send(&mut self, val: T) -> (r: std::result::Result<Promise<U>, T>)
        ensures
            old(self).sends(val, r),
            r is Err ==> r->Err_0 == val,
            *final(self) == *old(self),
    {
        let (tx, rx) = reply_channel();
        let sent = queue_send(&self.inner, Envelope(val, Callback::NoRetry(tx)));
        delivered(sent, rx)
    }
}

impl<T, U> Clone for UnboundedSender<T, U> {
    fn clone(&self) -> (r: UnboundedSender<T, U>)
        ensures
            self.twin(r),
    {
        UnboundedSender {
            giver: shared_giver_clone(&self.giver),
            inner: queue_sender_clone(&self.inner),
        }
    }
}

/// What was received, taken out of its envelope.
pub open spec fn spec_opened<T, U>(polled: Polled<Envelope<T, U>, ()>) -> Polled<
    (T, Callback<T, U>),
    (),
> {
    match polled {
        Polled::Pending => Polled::Pending,
        Polled::Item(envelope) => Polled::Item((envelope.0, envelope.1)),
        Polled::End | Polled::Failed(_) => Polled::End,
    }
}

/// What was received, taken out of its envelope.
pub fn opened<T, U>(polled: Polled<Envelope<T, U>, ()>) -> (r: Polled<(T, Callback<T, U>), ()>)
    ensures
        r == spec_opened(polled),
{
    match polled {
        Polled::Pending => Polled::Pending,
        Polled::Item(envelope) => {
            let Envelope(val, callback) = envelope;
            Polled::Item((val, callback))
        },
        Polled::End | Polled::Failed(_) => Polled::End,
    }
}

/// Polling a queue can give this.
pub closed spec fn polls_queue<T, U>(
    rx: &mut mpsc::UnboundedReceiver<Envelope<T, U>>,
    cx: &mut Context<'_>,
    polled: Polled<Envelope<T, U>, ()>,
) -> bool {
    call_ensures(queue_poll_recv::<Envelope<T, U>>, (rx, cx), polled)
}

/// Polling a queue once, without waiting, can give this.
pub closed spec fn polls_queue_once<T, U>(
    rx: &mut mpsc::UnboundedReceiver<Envelope<T, U>>,
    taken: Option<Envelope<T, U>>,
) -> bool {
    call_ensures(queue_recv_now::<Envelope<T, U>>, (rx,), taken)
}

/// Taking what is in a queue can give this.
pub closed spec fn takes<T, U>(
    rx: &mut mpsc::UnboundedReceiver<Envelope<T, U>>,
    taken: Option<Envelope<T, U>>,
) -> bool {
    call_ensures(queue_take::<Envelope<T, U>>, (rx,), taken)
}

/// A queue was closed.
pub closed spec fn closes_queue<T, U>(rx: &mut mpsc::UnboundedReceiver<Envelope<T, U>>) -> bool {
    call_ensures(queue_close::<Envelope<T, U>>, (rx,), ())
}

// What the calls above come to is what these functions of them say.
proof fn lemma_calls<T, U>()
    ensures
        forall|giver: &mut Giver, c: &mut Context<'_>, polled: Polled<(), ()>| #[trigger]
            call_ensures(giver_poll_want, (giver, c), polled) ==> polls_want(giver, c, polled),
        forall|
            rx: &mut mpsc::UnboundedReceiver<Envelope<T, U>>,
            c: &mut Context<'_>,
            polled: Polled<Envelope<T, U>, ()>,
        | #[trigger]
            call_ensures(queue_poll_recv::<Envelope<T, U>>, (rx, c), polled) ==> polls_queue(
                rx,
                c,
                polled,
            ),
        forall|
            rx: &mut mpsc::UnboundedReceiver<Envelope<T, U>>,
            taken: Option<Envelope<T, U>>,
        | #[trigger]
            call_ensures(queue_recv_now::<Envelope<T, U>>, (rx,), taken) ==> polls_queue_once(
                rx,
                taken,
            ),
        forall|
            rx: &mut mpsc::UnboundedReceiver<Envelope<T, U>>,
            taken: Option<Envelope<T, U>>,
        | #[trigger]
            call_ensures(queue_take::<Envelope<T, U>>, (rx,), taken) ==> takes(rx, taken),
        forall|rx: &mut mpsc::UnboundedReceiver<Envelope<T, U>>| #[trigger]
            call_ensures(queue_close::<Envelope<T, U>>, (rx,), ()) ==> closes_queue(rx),
{
}

proof fn lemma_close_call<T, U>()
    ensures
        forall|rx: &mut Receiver<T, U>| #[trigger]
            call_ensures(Receiver::<T, U>::close_queue, (rx,), ()) ==> Receiver::queue_closed(rx),
{
}

proof fn lemma_polls_closed<R>()
    ensures
        forall|tx: &mut oneshot::Sender<R>, c: &mut Context<'_>, r: bool| #[trigger]
            call_ensures(reply_poll_closed::<R>, (tx, c), r) ==> polls_closed(tx, c, r),
{
}

/// A request that was taken from the queue was answered that it is canceled.
pub open spec fn answered<T, U>(taken: Option<Envelope<T, U>>) -> bool {
    taken is Some ==> exists|reply: Reply<T, U>| #[trigger]
        taken->Some_0.1.replied(reply) && taken->Some_0.1.canceled_reply_is(taken->Some_0.0, reply)
}

/// Whether this is the number of one of so many takes.
pub open spec fn is_turn(i: int, n: nat) -> bool {
    0 <= i < n
}

/// Requests were taken from the queue until none was left, or until there were as
/// many as a word can count.
pub open spec fn all_taken<T, U>(taken: Seq<Option<Envelope<T, U>>>) -> bool {
    taken.len() == usize::MAX || taken.len() > 0 && taken.last() is None
}

impl<T, U> Receiver<T, U> {
    /// Whether it has told the sender that it takes no more requests.
    pub closed spec fn is_closed(&self) -> bool {
        self.closed
    }

    /// How often it has told the sender that it waits for a request.
    pub closed spec fn asked(&self) -> nat {
        taker_wants(self.taker)
    }

    /// The end of the queue that requests come out of.
    pub closed spec fn queue(&self) -> mpsc::UnboundedReceiver<Envelope<T, U>> {
        self.inner
    }

    /// The side that wants requests.
    pub closed spec fn taker_end(&self) -> Taker {
        self.taker
    }

    /// The sender was told exactly when it is closed.
    pub closed spec fn wf(&self) -> bool {
        self.closed == taker_canceled(self.taker)
    }

    /// Waits for a request. The sender is told that one is wanted, unless the
    /// receiver is closed.
    pub fn poll_recv(&mut self, cx: &mut Context<'_>) -> (r: Polled<(T, Callback<T, U>), ()>)
        requires
            old(self).wf(),
        ensures
            exists|
                rx: &mut mpsc::UnboundedReceiver<Envelope<T, U>>,
                c: &mut Context<'_>,
                polled: Polled<Envelope<T, U>, ()>,
            |
                *rx == old(self).queue() && *final(rx) == final(self).queue() && *c == *old(cx)
                    && *final(c) == *final(cx) && #[trigger] polls_queue(rx, c, polled) && r
                    == spec_opened(polled),
            if r is Pending && !old(self).is_closed() {
                exists|taker: &mut Taker|
                    *taker == old(self).taker_end() && *final(taker) == final(self).taker_end()
                        && #[trigger] call_ensures(
                    Taker::want,
                    (taker,),
                    (),
                )
            } else {
                final(self).taker_end() == old(self).taker_end()
            },
            final(self).wf(),
            final(self).is_closed() == old(self).is_closed(),
            final(self).asked() == (if r is Pending && !old(self).is_closed() {
                old(self).asked() + 1
            } else {
                old(self).asked()
            }),
            !(r is Failed),
    {
        proof {
            lemma_calls::<T, U>();
        }
        let polled = queue_poll_recv(&mut self.inner, cx);
        if matches!(polled, Polled::Pending) && !self.closed {
            self.taker.want();
        }
        opened(polled)
    }

    /// The queue of a receiver was closed, whose sender had been told before that no
    /// more requests are taken.
    pub closed spec fn queue_closed(rx: &mut Receiver<T, U>) -> bool {
        call_ensures(Receiver::<T, U>::close_queue, (rx,), ())
    }

    /// Closes the queue, once the sender was told that no more requests are taken.
    fn close_queue(&mut self)
        requires
            taker_canceled(old(self).taker),
        ensures
            exists|rx: &mut mpsc::UnboundedReceiver<Envelope<T, U>>|
                *rx == old(self).queue() && *final(rx) == final(self).queue()
                    && #[trigger] closes_queue(rx),
            final(self).taker_end() == old(self).taker_end(),
            final(self).is_closed(),
    {
        proof {
            lemma_calls::<T, U>();
        }
        self.closed = true;
        queue_close(&mut self.inner);
    }

    /// Takes no more requests. The sender is told first, and then the queue is closed;
    /// those that are in the queue stay there.
    pub fn close(&mut self)
        ensures
            exists|taker: &mut Taker, told: &mut Receiver<T, U>|
                *taker == old(self).taker_end() && *final(taker) == told.taker_end()
                    && #[trigger] call_ensures(Taker::cancel, (taker,), ()) && told.queue()
                    == old(self).queue() && *final(told) == *final(self)
                    && #[trigger] Receiver::queue_closed(told),
            exists|rx: &mut mpsc::UnboundedReceiver<Envelope<T, U>>|
                *rx == old(self).queue() && *final(rx) == final(self).queue()
                    && #[trigger] closes_queue(rx),
            exists|taker: &mut Taker|
                *taker == old(self).taker_end() && *final(taker) == final(self).taker_end()
                    && #[trigger] call_ensures(Taker::cancel, (taker,), ()),
            final(self).wf(),
            final(self).is_closed(),
            final(self).asked() == old(self).asked(),
    {
        proof {
            lemma_close_call::<T, U>();
        }
        self.taker.cancel();
        self.close_queue();
    }

    /// A request that is there.
    pub fn try_recv(&mut self) -> (r: Option<(T, Callback<T, U>)>)
        requires
            old(self).wf(),
        ensures
            exists|
                rx: &mut mpsc::UnboundedReceiver<Envelope<T, U>>,
                taken: Option<Envelope<T, U>>,
            |
                *rx == old(self).queue() && *final(rx) == final(self).queue()
                    && #[trigger] polls_queue_once(rx, taken) && r == (match taken {
                    Some(envelope) => Some((envelope.0, envelope.1)),
                    None => None,
                }),
            final(self).taker_end() == old(self).taker_end(),
            final(self).wf(),
            final(self).is_closed() == old(self).is_closed(),
            final(self).asked() == old(self).asked(),
    {
        proof {
            lemma_calls::<T, U>();
        }
        match queue_recv_now(&mut self.inner) {
            Some(envelope) => {
                let Envelope(val, callback) = envelope;
                Some((val, callback))
            },
            None => None,
        }
    }

    /// Takes no more requests, and replies to those in the queue that they are
    /// canceled, so that nobody waits for ever.
    pub fn shut(&mut self)
        ensures
            exists|
                taker: &mut Taker,
                told: &mut Receiver<T, U>,
                states: Seq<mpsc::UnboundedReceiver<Envelope<T, U>>>,
                taken: Seq<Option<Envelope<T, U>>>,
            |
                #![trigger
                    call_ensures(Taker::cancel, (taker,), ()),
                    Receiver::queue_closed(told),
                    all_taken(taken),
                    states.len()]
                *taker == old(self).taker_end() && *final(taker) == told.taker_end()
                    && call_ensures(Taker::cancel, (taker,), ()) && told.queue()
                    == old(self).queue() && Receiver::queue_closed(told) && states.len()
                    == taken.len() + 1 && states[0] == final(told).queue() && states.last()
                    == final(self).queue() && all_taken(taken) && forall|i: int|
                    #[trigger] is_turn(i, taken.len()) ==> answered(taken[i]) && exists|
                        q: &mut mpsc::UnboundedReceiver<Envelope<T, U>>,
                    |
                        *q == states[i] && *final(q) == states[i + 1] && #[trigger] takes(
                            q,
                            taken[i],
                        ),
            exists|taker: &mut Taker|
                *taker == old(self).taker_end() && *final(taker) == final(self).taker_end()
                    && #[trigger] call_ensures(
                    Taker::cancel,
                    (taker,),
                    (),
                ),
            final(self).wf(),
            final(self).is_closed(),
            final(self).asked() == old(self).asked(),
    {
        self.close();
        let ghost closed = *self;
        let ghost mut states: Seq<mpsc::UnboundedReceiver<Envelope<T, U>>> = seq![self.inner];
        let ghost mut taken: Seq<Option<Envelope<T, U>>> = Seq::empty();
        let mut left: usize = usize::MAX;
        while left > 0
            invariant_except_break
                taken.len() == usize::MAX - left,
            invariant
                self.wf(),
                self.is_closed(),
                self.taker == closed.taker,
                states.len() == taken.len() + 1,
                states[0] == closed.inner,
                states.last() == self.inner,
                forall|i: int|
                    #[trigger] is_turn(i, taken.len()) ==> answered(taken[i]) && exists|
                        q: &mut mpsc::UnboundedReceiver<Envelope<T, U>>,
                    |
                        *q == states[i] && *final(q) == states[i + 1] && #[trigger] takes(
                            q,
                            taken[i],
                        ),
            ensures
                all_taken(taken),
            decreases left,
        {
            let ghost before = self.inner;
            let ghost (taken_before, states_before) = (taken, states);
            let next = queue_take(&mut self.inner);
            let ghost last = next;
            proof {
                lemma_calls::<T, U>();
                taken = taken.push(next);
                states = states.push(self.inner);
            }
            let done: bool = match next {
                Some(envelope) => {
                    let Envelope(val, callback) = envelope;
                    callback.cancel(val);
                    false
                },
                None => true,
            };
            assert(answered(last));
            assert forall|i: int| #[trigger] is_turn(i, taken.len()) implies answered(taken[i])
                && exists|q: &mut mpsc::UnboundedReceiver<Envelope<T, U>>|
                *q == states[i] && *final(q) == states[i + 1] && #[trigger] takes(q, taken[i]) by {
                if i < taken_before.len() {
                    assert(is_turn(i, taken_before.len()) && taken[i] == taken_before[i]);
                    assert(states[i] == states_before[i]);
                    assert(states[i + 1] == states_before[i + 1]);
                } else {
                    assert(taken[i] == last);
                    assert(states[i] == before);
                }
            }
            if done {
                break;
            }
            left = left - 1;
        }
    }
}

/// What a request is answered that was never taken up: it is canceled, because
/// the connection closed, and it comes back.
pub fn canceled<T>(val: T) -> (r: TrySendError<T>)
    ensures
        r.spec_error().says(Kind::Canceled, "connection closed"@),
        r.spec_message() == Some(val),
{
    let text: String = String::from_str("connection closed");
    TrySendError {
        error: Error::new_canceled().with(Cause::message(text)),
        message: Some(val),
    }
}

/// Why a connection task went away without a reply.
pub open spec fn gone_text(panicking: bool) -> Seq<char> {
    if panicking {
        "user code panicked"@
    } else {
        "runtime dropped the dispatch task"@
    }
}

/// What a request is answered whose connection task went away without a reply;
/// the text says whether that was because user code panicked.
pub fn dispatch_gone(panicking: bool) -> (err: Error)
    ensures
        err.says(Kind::User(User::DispatchGone), gone_text(panicking)),
{
    let text: String = if panicking {
        String::from_str("user code panicked")
    } else {
        String::from_str("runtime dropped the dispatch task")
    };
    Error::new_user_dispatch_gone().with(Cause::message(text))
}

/// Looking whether the other end of a reply's channel is gone can give this.
pub closed spec fn sees_closed<R>(tx: oneshot::Sender<R>, r: bool) -> bool {
    call_ensures(reply_is_closed::<R>, (&tx,), r)
}

/// A reply was handed to its channel.
pub closed spec fn handed_over<R>(tx: oneshot::Sender<R>, reply: R) -> bool {
    exists|sent: std::result::Result<(), R>| #[trigger]
        call_ensures(reply_send::<R>, (tx, reply), sent)
}

/// Polling whether the other end of a reply's channel is gone can give this.
pub closed spec fn polls_closed<R>(
    tx: &mut oneshot::Sender<R>,
    cx: &mut Context<'_>,
    r: bool,
) -> bool {
    call_ensures(reply_poll_closed::<R>, (tx, cx), r)
}

impl<T, U> Callback<T, U> {
    /// Looking whether nobody waits for the reply can give this.
    pub open spec fn sees_cancel(&self, r: bool) -> bool {
        match self {
            Callback::Retry(tx) => sees_closed(*tx, r),
            Callback::NoRetry(tx) => sees_closed(*tx, r),
        }
    }

    /// The reply as it goes out: only where a retry was asked for does a failed
    /// request come back with its error.
    pub open spec fn spec_reply(&self, val: std::result::Result<U, TrySendError<T>>) -> Reply<
        T,
        U,
    > {
        match self {
            Callback::Retry(_) => Reply::Retry(val),
            Callback::NoRetry(_) => Reply::NoRetry(
                match val {
                    Ok(response) => Ok(response),
                    Err(e) => Err(e.spec_error()),
                },
            ),
        }
    }

    /// A reply was handed to the one who waits for it.
    pub open spec fn replied(&self, reply: Reply<T, U>) -> bool {
        match (*self, reply) {
            (Callback::Retry(tx), Reply::Retry(val)) => handed_over(tx, val),
            (Callback::NoRetry(tx), Reply::NoRetry(val)) => handed_over(tx, val),
            _ => false,
        }
    }

    /// Whether this is the reply to a request whose connection task went away.
    pub open spec fn gone_reply_is(&self, panicking: bool, r: Reply<T, U>) -> bool {
        match self {
            Callback::Retry(_) => {
                &&& r is Retry
                &&& r->Retry_0 is Err
                &&& r->Retry_0->Err_0.spec_message() is None
                &&& r->Retry_0->Err_0.spec_error().says(
                    Kind::User(User::DispatchGone),
                    gone_text(panicking),
                )
            },
            Callback::NoRetry(_) => {
                &&& r is NoRetry
                &&& r->NoRetry_0 is Err
                &&& r->NoRetry_0->Err_0.says(Kind::User(User::DispatchGone), gone_text(panicking))
            },
        }
    }

    /// Whether this is the reply to a request that was never taken up.
    pub open spec fn canceled_reply_is(&self, val: T, r: Reply<T, U>) -> bool {
        match self {
            Callback::Retry(_) => {
                &&& r is Retry
                &&& r->Retry_0 is Err
                &&& r->Retry_0->Err_0.spec_message() == Some(val)
                &&& r->Retry_0->Err_0.spec_error().says(Kind::Canceled, "connection closed"@)
            },
            Callback::NoRetry(_) => {
                &&& r is NoRetry
                &&& r->NoRetry_0 is Err
                &&& r->NoRetry_0->Err_0.says(Kind::Canceled, "connection closed"@)
            },
        }
    }

    /// Whether nobody waits for the reply.
    pub fn is_canceled(&self) -> (r: bool)
        ensures
            self.sees_cancel(r),
    {
        match self {
            Callback::Retry(tx) => reply_is_closed(tx),
            Callback::NoRetry(tx) => reply_is_closed(tx),
        }
    }

    /// Whether nobody waits for the reply; the task is woken when that happens.
    pub fn poll_canceled(&mut self, cx: &mut Context<'_>) -> (r: bool)
        ensures
            *old(self) is Retry ==> exists|
                tx: &mut oneshot::Sender<std::result::Result<U, TrySendError<T>>>,
                c: &mut Context<'_>,
            |
                *tx == old(self)->Retry_0 && *final(self) == Callback::<T, U>::Retry(*final(tx))
                    && *c == *old(cx) && *final(c) == *final(cx) && #[trigger] polls_closed(
                    tx,
                    c,
                    r,
                ),
            *old(self) is NoRetry ==> exists|
                tx: &mut oneshot::Sender<Result<U>>,
                c: &mut Context<'_>,
            |
                *tx == old(self)->NoRetry_0 && *final(self) == Callback::<T, U>::NoRetry(*final(tx))
                    && *c == *old(cx) && *final(c) == *final(cx) && #[trigger] polls_closed(
                    tx,
                    c,
                    r,
                ),
    {
        proof {
            lemma_polls_closed::<std::result::Result<U, TrySendError<T>>>();
            lemma_polls_closed::<Result<U>>();
        }
        match self {
            Callback::Retry(tx) => reply_poll_closed(tx, cx),
            Callback::NoRetry(tx) => reply_poll_closed(tx, cx),
        }
    }

    /// The reply as it goes out: only where a retry was asked for does a failed
    /// request come back with its error.
    pub fn reply(&self, val: std::result::Result<U, TrySendError<T>>) -> (r: Reply<T, U>)
        ensures
            r == self.spec_reply(val),
    {
        match self {
            Callback::Retry(_) => Reply::Retry(val),
            Callback::NoRetry(_) => Reply::NoRetry(
                match val {
                    Ok(response) => Ok(response),
                    Err(e) => Err(e.error),
                },
            ),
        }
    }

    /// The reply to a request whose connection task went away; the request does
    /// not come back.
    pub fn gone_reply(&self, panicking: bool) -> (r: Reply<T, U>)
        ensures
            self.gone_reply_is(panicking, r),
    {
        self.reply(Err(TrySendError { error: dispatch_gone(panicking), message: None }))
    }

    /// The reply to a request that was never taken up: it is canceled, and comes
    /// back where a retry was asked for.
    pub fn canceled_reply(&self, val: T) -> (r: Reply<T, U>)
        ensures
            self.canceled_reply_is(val, r),
    {
        self.reply(Err(canceled(val)))
    }

    fn deliver(self, reply: Reply<T, U>)
        requires
            self is Retry <==> reply is Retry,
        ensures
            self.replied(reply),
    {
        match self {
            Callback::Retry(tx) => match reply {
                Reply::Retry(val) => {
                    let _ = reply_send(tx, val);
                },
                Reply::NoRetry(_) => {},
            },
            Callback::NoRetry(tx) => match reply {
                Reply::NoRetry(val) => {
                    let _ = reply_send(tx, val);
                },
                Reply::Retry(_) => {},
            },
        }
    }

    /// Sends the reply to the one who waits for it.
    pub fn send(self, val: std::result::Result<U, TrySendError<T>>)
        ensures
            self.replied(self.spec_reply(val)),
    {
        let reply = self.reply(val);
        self.deliver(reply);
    }

    /// Sends the reply to a request that was never taken up.
    pub fn cancel(self, val: T)
        ensures
            exists|reply: Reply<T, U>| #[trigger]
                self.replied(reply) && self.canceled_reply_is(val, reply),
    {
        let reply = self.canceled_reply(val);
        self.deliver(reply);
    }

    /// Sends the reply to a request whose connection task went away.
    pub fn gone(self, panicking: bool)
        ensures
            exists|reply: Reply<T, U>| #[trigger]
                self.replied(reply) && self.gone_reply_is(panicking, reply),
    {
        let reply = self.gone_reply(panicking);
        self.deliver(reply);
    }
}

/// What came of waiting for the response to a request.
pub enum When<T, U> {
    /// Nothing yet.
    Pending,
    /// The response.
    Response(U),
    /// A failure, and the request where it was not sent.
    Failed(Error, Option<T>),
}

/// Sends the response to a request to the one who waits for it, when it comes.
#[verifier::reject_recursive_types(T)]
#[verifier::reject_recursive_types(U)]
pub struct SendWhen<T, U> {
    pub call_back: Option<Callback<T, U>>,
}

impl<T, U> When<T, U> {
    /// Whether this is the reply that follows from what came, if one does.
    pub open spec fn outcome_is(
        &self,
        r: Option<std::result::Result<U, TrySendError<T>>>,
    ) -> bool {
        match self {
            When::Pending => r is None,
            When::Response(response) => r == Some(Ok::<U, TrySendError<T>>(*response)),
            When::Failed(error, message) => {
                &&& r is Some
                &&& r->0 is Err
                &&& r->0->Err_0.spec_error() == error
                &&& r->0->Err_0.spec_message() == message
            },
        }
    }

    /// The reply that follows from what came, if one does.
    pub fn outcome(self) -> (r: Option<std::result::Result<U, TrySendError<T>>>)
        ensures
            self.outcome_is(r),
    {
        match self {
            When::Pending => None,
            When::Response(response) => Some(Ok(response)),
            When::Failed(error, message) => Some(Err(TrySendError { error, message })),
        }
    }
}

impl<T, U> SendWhen<T, U> {
    /// Goes on, given what came of waiting for the response. It is done, and gives
    /// the callback up, once there is a response or a failure, or nobody waits for
    /// it any more.
    pub fn poll(&mut self, when: When<T, U>, cx: &mut Context<'_>) -> (done: bool)
        requires
            old(self).call_back is Some,
        ensures
            (when is Pending) && old(self).call_back->0 is Retry ==> exists|
                tx: &mut oneshot::Sender<std::result::Result<U, TrySendError<T>>>,
                c: &mut Context<'_>,
            |
                *tx == old(self).call_back->0->Retry_0 && *c == *old(cx) && *final(c) == *final(cx)
                    && #[trigger] polls_closed(tx, c, done) && (!done ==> final(self).call_back
                    == Some(Callback::<T, U>::Retry(*final(tx)))),
            (when is Pending) && old(self).call_back->0 is NoRetry ==> exists|
                tx: &mut oneshot::Sender<Result<U>>,
                c: &mut Context<'_>,
            |
                *tx == old(self).call_back->0->NoRetry_0 && *c == *old(cx)
                    && *final(c) == *final(cx) && #[trigger] polls_closed(tx, c, done) && (!done
                    ==> final(self).call_back == Some(Callback::<T, U>::NoRetry(*final(tx)))),
            !(when is Pending) ==> done && exists|val: std::result::Result<U, TrySendError<T>>|
                when.outcome_is(Some(val)) && #[trigger] old(self).call_back->0.replied(
                    old(self).call_back->0.spec_reply(val),
                ),
            done <==> final(self).call_back is None,
    {
        let mut call_back = self.call_back.take().unwrap();
        match when.outcome() {
            Some(val) => {
                call_back.send(val);
                true
            },
            None => {
                if call_back.poll_canceled(cx) {
                    true
                } else {
                    self.call_back = Some(call_back);
                    false
                }
            },
        }
    }
}

/// How many of some requests go out, given for each whether the receiver had just
/// asked for one.
pub open spec fn sent_count(buffered_once: bool, given: Seq<bool>) -> nat
    decreases given.len(),
{
    if given.len() == 0 {
        0
    } else if may_send(buffered_once, given[0]) {
        1 + sent_count(true, given.skip(1))
    } else {
        sent_count(true, given.skip(1))
    }
}

/// How often the receiver had asked.
pub open spec fn given_count(given: Seq<bool>) -> nat
    decreases given.len(),
{
    if given.len() == 0 {
        0
    } else {
        (if given[0] { 1nat } else { 0nat }) + given_count(given.skip(1))
    }
}

/// Over the life of a channel at most one request goes out that the receiver did
/// not ask for: the first.
pub proof fn law_one_request_ahead(given: Seq<bool>)
    ensures
        sent_count(true, given) == given_count(given),
        given_count(given) <= sent_count(false, given) <= given_count(given) + 1,
        given.len() > 0 && !given[0] ==> sent_count(false, given) == given_count(given) + 1,
    decreases given.len(),
{
    if given.len() > 0 {
        law_one_request_ahead(given.skip(1));
    }
}

/// A request goes out where the receiver has just asked for one, and where it is the
/// first; else it comes back. Either way it was looked once whether the receiver had
/// asked, and the next request is not the first.
pub proof fn law_requests_go_out_when_asked<T, U>(
    before: Sender<T, U>,
    after: Sender<T, U>,
    val: T,
    r: std::result::Result<Promise<U>, T>,
)
    requires
        before.sends(after, val, r),
    ensures
        after.has_sent(),
        after.gave().len() == before.gave().len() + 1,
        after.gave().drop_last() == before.gave(),
        after.gave().last() || !before.has_sent() ==> before.queues(val, r),
        !after.gave().last() && before.has_sent() ==> r is Err && r->Err_0 == val,
{
    let given = choose|given: bool| after.gave() == #[trigger] before.gave().push(given);
    assert(before.gave().push(given).drop_last() =~= before.gave());
}

/// The same holds of a request that is to come back where it fails.
pub proof fn law_requests_with_retry_go_out_when_asked<T, U>(
    before: Sender<T, U>,
    after: Sender<T, U>,
    val: T,
    r: std::result::Result<RetryPromise<T, U>, T>,
)
    requires
        before.sends_with_retry(after, val, r),
    ensures
        after.has_sent(),
        after.gave().len() == before.gave().len() + 1,
        after.gave().drop_last() == before.gave(),
        after.gave().last() || !before.has_sent() ==> before.queues_with_retry(val, r),
        !after.gave().last() && before.has_sent() ==> r is Err && r->Err_0 == val,
{
    let given = choose|given: bool| after.gave() == #[trigger] before.gave().push(given);
    assert(before.gave().push(given).drop_last() =~= before.gave());
}

/// What the one who waits gets: a response as it is, and a failure with the request only
/// where a retry was asked for.
pub proof fn law_replies<T, U>(
    callback: Callback<T, U>,
    val: std::result::Result<U, TrySendError<T>>,
)
    ensures
        callback is Retry ==> callback.spec_reply(val) is Retry && callback.spec_reply(val)->Retry_0
            == val,
        callback is NoRetry ==> callback.spec_reply(val) is NoRetry,
        callback is NoRetry && val is Ok ==> callback.spec_reply(val)->NoRetry_0 is Ok
            && callback.spec_reply(val)->NoRetry_0->Ok_0 == val->Ok_0,
        callback is NoRetry && val is Err ==> callback.spec_reply(val)->NoRetry_0 is Err
            && callback.spec_reply(val)->NoRetry_0->Err_0 == val->Err_0.spec_error(),
{
}

/// A request that was never taken up is answered as canceled, because the connection
/// closed, and comes back where a retry was asked for; one whose connection task went
/// away is answered as the fault of user code, and does not come back.
pub proof fn law_unanswered_requests<T, U>(
    callback: Callback<T, U>,
    val: T,
    panicking: bool,
    canceled: Reply<T, U>,
    gone: Reply<T, U>,
)
    requires
        callback.canceled_reply_is(val, canceled),
        callback.gone_reply_is(panicking, gone),
    ensures
        callback is Retry ==> {
            &&& canceled is Retry
            &&& canceled->Retry_0 is Err
            &&& canceled->Retry_0->Err_0.spec_message() == Some(val)
            &&& canceled->Retry_0->Err_0.spec_error().spec_kind() == Kind::Canceled
            &&& canceled->Retry_0->Err_0.spec_error().chain().len() == 1
            &&& canceled->Retry_0->Err_0.spec_error().chain()[0] is Message
            &&& canceled->Retry_0->Err_0.spec_error().chain()[0]->Message_0@ == "connection closed"@
            &&& gone is Retry
            &&& gone->Retry_0 is Err
            &&& gone->Retry_0->Err_0.spec_message() is None
            &&& gone->Retry_0->Err_0.spec_error().spec_kind() == Kind::User(User::DispatchGone)
        },
        callback is NoRetry ==> {
            &&& canceled is NoRetry
            &&& canceled->NoRetry_0 is Err
            &&& canceled->NoRetry_0->Err_0.spec_kind() == Kind::Canceled
            &&& canceled->NoRetry_0->Err_0.chain().len() == 1
            &&& canceled->NoRetry_0->Err_0.chain()[0] is Message
            &&& canceled->NoRetry_0->Err_0.chain()[0]->Message_0@ == "connection closed"@
            &&& gone is NoRetry
            &&& gone->NoRetry_0 is Err
            &&& gone->NoRetry_0->Err_0.spec_kind() == Kind::User(User::DispatchGone)
        },
{
}

/// Why the connection task went away is told: that user code panicked, or that the
/// runtime dropped the task.
pub proof fn law_reasons_of_a_gone_task<T, U>(
    callback: Callback<T, U>,
    panicking: bool,
    gone: Reply<T, U>,
)
    requires
        callback.gone_reply_is(panicking, gone),
    ensures
        ({
            let err = if callback is Retry {
                gone->Retry_0->Err_0.spec_error()
            } else {
                gone->NoRetry_0->Err_0
            };
            &&& err.chain().len() == 1
            &&& err.chain()[0] is Message
            &&& panicking ==> err.chain()[0]->Message_0@ == "user code panicked"@
            &&& !panicking ==> err.chain()[0]->Message_0@ == "runtime dropped the dispatch task"@
        }),
{
}

/// A receiver that goes away stops taking only when the queue has nothing more, and each
/// request that it took was answered as canceled, with the request where a retry was
/// asked for.
pub proof fn law_all_in_the_queue_are_answered<T, U>(
    taken: Seq<Option<Envelope<T, U>>>,
    i: int,
)
    requires
        all_taken(taken),
        taken.len() < usize::MAX,
        0 <= i < taken.len(),
        answered(taken[i]),
        taken[i] is Some,
    ensures
        taken.len() > 0,
        taken.last() is None,
        exists|reply: Reply<T, U>| #[trigger]
            taken[i]->Some_0.1.replied(reply) && (taken[i]->Some_0.1 is Retry ==> reply is Retry
                && reply->Retry_0 is Err && reply->Retry_0->Err_0.spec_message() == Some(
                taken[i]->Some_0.0,
            ) && reply->Retry_0->Err_0.spec_error().spec_kind() == Kind::Canceled) && (
            taken[i]->Some_0.1 is NoRetry ==> reply is NoRetry && reply->NoRetry_0 is Err
                && reply->NoRetry_0->Err_0.spec_kind() == Kind::Canceled),
{
}

/// What came of waiting for a response is what is replied: the response, or the failure
/// with its request; and nothing as long as nothing came.
pub proof fn law_outcomes<T, U>(
    found: When<T, U>,
    r: Option<std::result::Result<U, TrySendError<T>>>,
)
    requires
        found.outcome_is(r),
    ensures
        found is Pending <==> r is None,
        found is Response ==> r->0 is Ok && r->0->Ok_0 == found->Response_0,
        found is Failed ==> r->0 is Err && r->0->Err_0.spec_error() == found->Failed_0
            && r->0->Err_0.spec_message() == found->Failed_1,
{
}

/// What comes out of the queue is the request that went in, with its own callback, and
/// where the queue took a request the one who waits gets its promise.
pub proof fn law_envelopes<T, U, P>(
    envelope: Envelope<T, U>,
    sent: std::result::Result<(), Envelope<T, U>>,
    promise: P,
)
    ensures
        spec_opened(Polled::<Envelope<T, U>, ()>::Item(envelope)) == Polled::<
            (T, Callback<T, U>),
            (),
        >::Item((envelope.0, envelope.1)),
        spec_opened(Polled::<Envelope<T, U>, ()>::Pending) is Pending,
        spec_opened(Polled::<Envelope<T, U>, ()>::End) is End,
        sent is Ok ==> spec_delivered(sent, promise) is Ok && spec_delivered(sent, promise)->Ok_0
            == promise,
        sent is Err ==> spec_delivered(sent, promise) is Err && spec_delivered(sent, promise)->Err_0
            == sent->Err_0.0,
{
}

// What is said of queues, wants and replies is said of the calls that are made on them.
proof fn law_calls<T, U, R>(
    giver: &mut Giver,
    cx: &mut Context<'_>,
    want: Polled<(), ()>,
    rx: &mut mpsc::UnboundedReceiver<Envelope<T, U>>,
    polled: Polled<Envelope<T, U>, ()>,
    taken: Option<Envelope<T, U>>,
    tx: oneshot::Sender<R>,
    reply_end: &mut oneshot::Sender<R>,
    reply: R,
    r: bool,
)
    ensures
        polls_want(giver, cx, want) ==> call_ensures(giver_poll_want, (giver, cx), want),
        polls_queue(rx, cx, polled) ==> call_ensures(
            queue_poll_recv::<Envelope<T, U>>,
            (rx, cx),
            polled,
        ),
        polls_queue_once(rx, taken) ==> call_ensures(
            queue_recv_now::<Envelope<T, U>>,
            (rx,),
            taken,
        ),
        takes(rx, taken) ==> call_ensures(queue_take::<Envelope<T, U>>, (rx,), taken),
        closes_queue(rx) ==> call_ensures(queue_close::<Envelope<T, U>>, (rx,), ()),
        sees_closed(tx, r) ==> call_ensures(reply_is_closed::<R>, (&tx,), r),
        polls_closed(reply_end, cx, r) ==> call_ensures(
            reply_poll_closed::<R>,
            (reply_end, cx),
            r,
        ),
        handed_over(tx, reply) ==> exists|sent: std::result::Result<(), R>| #[trigger]
            call_ensures(reply_send::<R>, (tx, reply), sent),
{
}

// What is said of senders and receivers is said of the calls that are made on their ends.
proof fn law_ends<T, U>(
    tx: Sender<T, U>,
    unbound: UnboundedSender<T, U>,
    other: UnboundedSender<T, U>,
    rx: Receiver<T, U>,
    r: bool,
)
    ensures
        tx.feeds(rx) ==> call_ensures(
            queue_channel::<Envelope<T, U>>,
            (),
            (tx.inner, rx.inner),
        ) && call_ensures(want_new, (), (tx.giver, rx.taker)),
        tx.sees_want(r) ==> call_ensures(Giver::is_wanting, (&tx.giver,), r),
        tx.sees_cancel(r) ==> call_ensures(Giver::is_canceled, (&tx.giver,), r),
        unbound.sees_cancel(r) ==> call_ensures(SharedGiver::is_canceled, (&unbound.giver,), r),
        tx.unbinds(unbound) ==> call_ensures(Giver::shared, (tx.giver,), unbound.giver)
            && unbound.inner == tx.inner,
        unbound.twin(other) ==> call_ensures(shared_giver_clone, (&unbound.giver,), other.giver)
            && call_ensures(
            queue_sender_clone::<Envelope<T, U>>,
            (&unbound.inner,),
            other.inner,
        ),
        rx.wf() <==> (rx.is_closed() <==> taker_canceled(rx.taker)),
        tx.gave() == giver_gives(tx.giver),
        rx.asked() == taker_wants(rx.taker),
{
}

// A request goes into the queue once, as it is, with one end of a new channel for its
// reply; the one who waits has the other end, or the request where the queue refused it.
proof fn law_requests_in_the_queue<T, U>(
    tx: Sender<T, U>,
    unbound: UnboundedSender<T, U>,
    val: T,
    r: std::result::Result<Promise<U>, T>,
    retried: std::result::Result<RetryPromise<T, U>, T>,
)
    ensures
        tx.queues(val, r) ==> exists|
            reply: oneshot::Sender<Result<U>>,
            promise: Promise<U>,
            sent: std::result::Result<(), Envelope<T, U>>,
        |
            #[trigger] call_ensures(reply_channel::<Result<U>>, (), (reply, promise))
                && #[trigger] call_ensures(
                queue_send::<Envelope<T, U>>,
                (&tx.inner, Envelope(val, Callback::NoRetry(reply))),
                sent,
            ) && (sent is Ok ==> r is Ok && r->Ok_0 == promise) && (sent is Err ==> r is Err
                && r->Err_0 == val),
        unbound.sends(val, r) ==> exists|
            reply: oneshot::Sender<Result<U>>,
            promise: Promise<U>,
            sent: std::result::Result<(), Envelope<T, U>>,
        |
            #[trigger] call_ensures(reply_channel::<Result<U>>, (), (reply, promise))
                && #[trigger] call_ensures(
                queue_send::<Envelope<T, U>>,
                (&unbound.inner, Envelope(val, Callback::NoRetry(reply))),
                sent,
            ) && (sent is Ok ==> r is Ok && r->Ok_0 == promise) && (sent is Err ==> r is Err
                && r->Err_0 == val),
        tx.queues_with_retry(val, retried) ==> exists|
            reply: oneshot::Sender<std::result::Result<U, TrySendError<T>>>,
            promise: RetryPromise<T, U>,
            sent: std::result::Result<(), Envelope<T, U>>,
        |
            #[trigger] call_ensures(
                reply_channel::<std::result::Result<U, TrySendError<T>>>,
                (),
                (reply, promise),
            ) && #[trigger] call_ensures(
                queue_send::<Envelope<T, U>>,
                (&tx.inner, Envelope(val, Callback::Retry(reply))),
                sent,
            ) && (sent is Ok ==> retried is Ok && retried->Ok_0 == promise) && (sent is Err
                ==> retried is Err && retried->Err_0 == val),
        unbound.sends_with_retry(val, retried) ==> exists|
            reply: oneshot::Sender<std::result::Result<U, TrySendError<T>>>,
            promise: RetryPromise<T, U>,
            sent: std::result::Result<(), Envelope<T, U>>,
        |
            #[trigger] call_ensures(
                reply_channel::<std::result::Result<U, TrySendError<T>>>,
                (),
                (reply, promise),
            ) && #[trigger] call_ensures(
                queue_send::<Envelope<T, U>>,
                (&unbound.inner, Envelope(val, Callback::Retry(reply))),
                sent,
            ) && (sent is Ok ==> retried is Ok && retried->Ok_0 == promise) && (sent is Err
                ==> retried is Err && retried->Err_0 == val),
{
}

/// A reply goes to the one who waits for it in the way that was agreed on, and in no
/// other.
pub proof fn law_replies_reach_their_end<T, U>(callback: Callback<T, U>, reply: Reply<T, U>)
    requires
        callback.replied(reply),
    ensures
        callback is Retry <==> reply is Retry,
        callback is Retry ==> handed_over(callback->Retry_0, reply->Retry_0),
        callback is NoRetry ==> handed_over(callback->NoRetry_0, reply->NoRetry_0),
{
}

// The queue of a receiver is closed by the step that comes behind the cancel.
proof fn law_close_step<T, U>(rx: &mut Receiver<T, U>)
    ensures
        Receiver::queue_closed(rx) ==> call_ensures(Receiver::<T, U>::close_queue, (rx,), ()),
{
}

} // verus!
