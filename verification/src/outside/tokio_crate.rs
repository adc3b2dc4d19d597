//! Items of the `tokio` crate: the channels between a client and its connection.

use std::task::{Context, Poll};

use futures_util::FutureExt;
use tokio::sync::mpsc::{UnboundedReceiver as QueueReceiver, UnboundedSender as QueueSender};
use tokio::sync::oneshot::error::RecvError as ReplyRecvError;
use tokio::sync::oneshot::{Receiver as ReplyReceiver, Sender as ReplySender};
use vstd::prelude::*;

use crate::common::task::Polled;

verus! {

/// `tokio::sync::mpsc::UnboundedSender`.
#[verifier::external_type_specification]
#[verifier::external_body]
#[verifier::reject_recursive_types(T)]
pub struct ExQueueSender<T>(QueueSender<T>);

/// `tokio::sync::mpsc::UnboundedReceiver`.
#[verifier::external_type_specification]
#[verifier::external_body]
#[verifier::reject_recursive_types(T)]
pub struct ExQueueReceiver<T>(QueueReceiver<T>);

/// `tokio::sync::oneshot::Sender`.
#[verifier::external_type_specification]
#[verifier::external_body]
#[verifier::reject_recursive_types(T)]
pub struct ExReplySender<T>(ReplySender<T>);

/// `tokio::sync::oneshot::Receiver`.
#[verifier::external_type_specification]
#[verifier::external_body]
#[verifier::reject_recursive_types(T)]
pub struct ExReplyReceiver<T>(ReplyReceiver<T>);

/// `tokio::sync::oneshot::error::RecvError`.
#[verifier::external_type_specification]
#[verifier::external_body]
pub struct ExReplyRecvError(ReplyRecvError);

/// `mpsc::unbounded_channel`. What passes through it depends on both of its ends, so
/// nothing is said of that here.
#[verifier::external_body]
pub(crate) fn queue_channel<T>() -> (r: (QueueSender<T>, QueueReceiver<T>)) {
    tokio::sync::mpsc::unbounded_channel()
}

/// `mpsc::UnboundedSender::send`: a message that is not taken is given back. Whether
/// it is taken depends on the receiver.
#[verifier::external_body]
pub(crate) fn queue_send<T>(tx: &QueueSender<T>, message: T) -> (r: std::result::Result<(), T>)
    ensures
        r is Err ==> r->Err_0 == message,
{
    tx.send(message).map_err(|e| e.0)
}

/// `Clone for mpsc::UnboundedSender`: another sender of the same queue.
#[verifier::external_body]
pub(crate) fn queue_sender_clone<T>(tx: &QueueSender<T>) -> (r: QueueSender<T>) {
    tx.clone()
}

/// `mpsc::UnboundedReceiver::poll_recv`: the next message; it never fails. What
/// comes depends on the senders.
#[verifier::external_body]
pub(crate) fn queue_poll_recv<T>(rx: &mut QueueReceiver<T>, cx: &mut Context<'_>) -> (r: Polled<
    T,
    (),
>)
    ensures
        !(r is Failed),
{
    match rx.poll_recv(cx) {
        Poll::Pending => Polled::Pending,
        Poll::Ready(None) => Polled::End,
        Poll::Ready(Some(message)) => Polled::Item(message),
    }
}

/// `mpsc::UnboundedReceiver::recv`, polled once: a message that is there, which
/// depends on the senders.
#[verifier::external_body]
pub(crate) fn queue_recv_now<T>(rx: &mut QueueReceiver<T>) -> (r: Option<T>) {
    rx.recv().now_or_never().flatten()
}

/// `mpsc::UnboundedReceiver::try_recv`: a message that is there, which depends on the
/// senders. Unlike a poll it is not held up by the budget of a task.
#[verifier::external_body]
pub(crate) fn queue_take<T>(rx: &mut QueueReceiver<T>) -> (r: Option<T>) {
    rx.try_recv().ok()
}

/// `mpsc::UnboundedReceiver::close`: no more messages are taken in.
#[verifier::external_body]
pub(crate) fn queue_close<T>(rx: &mut QueueReceiver<T>) {
    rx.close()
}

/// `oneshot::channel`. What passes through it depends on both of its ends, so
/// nothing is said of that here.
#[verifier::external_body]
pub(crate) fn reply_channel<T>() -> (r: (ReplySender<T>, ReplyReceiver<T>)) {
    tokio::sync::oneshot::channel()
}

/// `oneshot::Sender::send`: a reply that nobody waits for is given back. Whether
/// anybody does depends on the receiver.
#[verifier::external_body]
pub(crate) fn reply_send<T>(tx: ReplySender<T>, reply: T) -> (r: std::result::Result<(), T>)
    ensures
        r is Err ==> r->Err_0 == reply,
{
    tx.send(reply)
}

/// `oneshot::Sender::is_closed`: whether nobody waits for the reply, which depends
/// on the receiver.
#[verifier::external_body]
pub(crate) fn reply_is_closed<T>(tx: &ReplySender<T>) -> bool {
    tx.is_closed()
}

/// `oneshot::Sender::poll_closed`: whether nobody waits for the reply, which depends
/// on the receiver; the task is woken when that happens.
#[verifier::external_body]
pub(crate) fn reply_poll_closed<T>(tx: &mut ReplySender<T>, cx: &mut Context<'_>) -> bool {
    tx.poll_closed(cx).is_ready()
}

} // verus!
