//! Items of the `futures-channel` crate: the channels of a body.

use std::pin::Pin;
use std::task::{Context, Poll};

use bytes::Bytes;
use futures_channel::mpsc;
use futures_channel::mpsc::{Receiver as MpscReceiver, Sender as MpscSender};
use futures_channel::oneshot;
use futures_channel::oneshot::{
    Canceled as OneshotCanceled, Receiver as OneshotReceiver, Sender as OneshotSender,
};
use futures_core::stream::{FusedStream, Stream};
use http::header::HeaderMap;
use std::future::Future;
use vstd::prelude::*;

use crate::common::task::Polled;
use crate::error::Error;

verus! {

/// `futures_channel::mpsc::Sender`.
#[verifier::external_type_specification]
#[verifier::external_body]
#[verifier::reject_recursive_types(T)]
pub struct ExMpscSender<T>(MpscSender<T>);

/// `futures_channel::mpsc::Receiver`.
#[verifier::external_type_specification]
#[verifier::external_body]
#[verifier::reject_recursive_types(T)]
pub struct ExMpscReceiver<T>(MpscReceiver<T>);

/// `futures_channel::oneshot::Sender`.
#[verifier::external_type_specification]
#[verifier::external_body]
#[verifier::reject_recursive_types(T)]
pub struct ExOneshotSender<T>(OneshotSender<T>);

/// `futures_channel::oneshot::Receiver`.
#[verifier::external_type_specification]
#[verifier::external_body]
#[verifier::reject_recursive_types(T)]
pub struct ExOneshotReceiver<T>(OneshotReceiver<T>);

/// `futures_channel::oneshot::Canceled`.
#[verifier::external_type_specification]
#[verifier::external_body]
pub struct ExCanceled(OneshotCanceled);

/// The items of a body's data channel.
pub type DataItem = std::result::Result<Bytes, Error>;

/// The items that a sender has put into its channel, the first first.
pub uninterp spec fn data_sent(tx: MpscSender<DataItem>) -> Seq<DataItem>;

/// How often a sender was cloned.
pub uninterp spec fn data_clones(tx: MpscSender<DataItem>) -> nat;

/// What the polls of a receiver gave, the first first.
pub uninterp spec fn data_polls(rx: MpscReceiver<DataItem>) -> Seq<Polled<Bytes, Error>>;

/// Whether a receiver has reached the end of its channel.
pub uninterp spec fn data_over(rx: MpscReceiver<DataItem>) -> bool;

/// What the polls of a receiver of trailers gave, the first first.
pub uninterp spec fn trailers_polls(rx: OneshotReceiver<HeaderMap>) -> Seq<Polled<HeaderMap, ()>>;

/// All items that are ever put into the channel of a sender, in their order.
pub uninterp spec fn data_through(tx: MpscSender<DataItem>) -> Seq<DataItem>;

/// All items that are ever put into the channel of a receiver, in their order.
pub uninterp spec fn data_arriving(rx: MpscReceiver<DataItem>) -> Seq<DataItem>;

/// The trailers that are ever put into the channel of a sender, if any are.
pub uninterp spec fn trailers_through(tx: OneshotSender<HeaderMap>) -> Option<HeaderMap>;

/// The trailers that are ever put into the channel of a receiver, if any are.
pub uninterp spec fn trailers_arriving(rx: OneshotReceiver<HeaderMap>) -> Option<HeaderMap>;

/// The items that some polls gave.
pub open spec fn arrived(polls: Seq<Polled<Bytes, Error>>) -> Seq<DataItem>
    decreases polls.len(),
{
    if polls.len() == 0 {
        Seq::empty()
    } else {
        match polls.last() {
            Polled::Item(chunk) => arrived(polls.drop_last()).push(Ok(chunk)),
            Polled::Failed(err) => arrived(polls.drop_last()).push(Err(err)),
            _ => arrived(polls.drop_last()),
        }
    }
}

/// Whether the polls of a receiver gave what arrives, in order, from the first item
/// on.
pub open spec fn gave_in_order(rx: MpscReceiver<DataItem>) -> bool {
    arrived(data_polls(rx)).is_prefix_of(data_arriving(rx))
}

/// Whether the polls of a receiver gave all that ever arrives.
pub open spec fn gave_all(rx: MpscReceiver<DataItem>) -> bool {
    arrived(data_polls(rx)) == data_arriving(rx)
}

/// Whether one of some polls gave trailers.
pub open spec fn gave_trailers(polls: Seq<Polled<HeaderMap, ()>>) -> bool {
    exists|i: int| 0 <= i < polls.len() && #[trigger] polls[i] is Item
}

/// `mpsc::channel` without a buffer of its own: each sender still has room for
/// one item. Nothing was sent or received yet, and what is put in on one side
/// arrives on the other.
#[verifier::external_body]
pub(crate) fn data_channel() -> (r: (MpscSender<DataItem>, MpscReceiver<DataItem>))
    ensures
        data_sent(r.0) == Seq::<DataItem>::empty(),
        data_clones(r.0) == 0,
        data_polls(r.1).len() == 0,
        data_through(r.0) == data_arriving(r.1),
        !data_over(r.1),
{
    mpsc::channel(0)
}

/// `oneshot::channel` for trailers. Nothing was received yet, and what is put in on
/// one side arrives on the other.
#[verifier::external_body]
pub(crate) fn trailers_channel() -> (r: (
    OneshotSender<HeaderMap>,
    OneshotReceiver<HeaderMap>,
))
    ensures
        trailers_polls(r.1).len() == 0,
        trailers_through(r.0) == trailers_arriving(r.1),
{
    oneshot::channel()
}

/// `mpsc::Sender::try_send`: an item is put into the channel, or given back. Which
/// of these it is depends on the receiver.
#[verifier::external_body]
pub(crate) fn data_try_send(tx: &mut MpscSender<DataItem>, item: DataItem) -> (r:
    std::result::Result<(), DataItem>)
    ensures
        r is Ok ==> data_sent(*final(tx)) == data_sent(*old(tx)).push(item),
        r is Err ==> data_sent(*final(tx)) == data_sent(*old(tx)),
        r is Err ==> r->Err_0 == item,
        data_through(*final(tx)) == data_through(*old(tx)),
        data_clones(*final(tx)) == data_clones(*old(tx)),
{
    tx.try_send(item).map_err(|e| e.into_inner())
}

/// `Clone for mpsc::Sender`: another sender of the same channel, with room of its own
/// for one item, which has sent nothing yet and was not cloned. It panics only at the
/// largest number of senders that a word can count.
#[verifier::external_body]
pub(crate) fn data_sender_clone(tx: &mut MpscSender<DataItem>) -> (r: MpscSender<DataItem>)
    ensures
        data_sent(r) == Seq::<DataItem>::empty(),
        data_clones(r) == 0,
        data_through(r) == data_through(*old(tx)),
        data_clones(*final(tx)) == data_clones(*old(tx)) + 1,
        data_sent(*final(tx)) == data_sent(*old(tx)),
        data_through(*final(tx)) == data_through(*old(tx)),
{
    tx.clone()
}

/// `mpsc::Sender::poll_ready`: whether the sender has room for an item; it fails
/// when the receiver is gone, and never ends. Which of these it is depends on the
/// receiver.
#[verifier::external_body]
pub(crate) fn data_poll_ready(tx: &mut MpscSender<DataItem>, cx: &mut Context<'_>) -> (r: Polled<
    (),
    (),
>)
    ensures
        !(r is End),
        data_sent(*final(tx)) == data_sent(*old(tx)),
        data_through(*final(tx)) == data_through(*old(tx)),
        data_clones(*final(tx)) == data_clones(*old(tx)),
{
    match tx.poll_ready(cx) {
        Poll::Pending => Polled::Pending,
        Poll::Ready(Ok(())) => Polled::Item(()),
        Poll::Ready(Err(_)) => Polled::Failed(()),
    }
}

/// `FusedStream::is_terminated` of `mpsc::Receiver`: whether the end of the
/// channel was reached before.
#[verifier::external_body]
pub(crate) fn data_is_terminated(rx: &MpscReceiver<DataItem>) -> (r: bool)
    ensures
        r == data_over(*rx),
{
    rx.is_terminated()
}

/// `Stream::poll_next` of `mpsc::Receiver`: the next item of the channel, in the order
/// in which they were put in. When it comes depends on the senders. At the end of the
/// channel all items came, and nothing more does.
#[verifier::external_body]
pub(crate) fn data_poll_next(rx: &mut MpscReceiver<DataItem>, cx: &mut Context<'_>) -> (r: Polled<
    Bytes,
    Error,
>)
    ensures
        data_polls(*final(rx)) == data_polls(*old(rx)).push(r),
        data_over(*final(rx)) == (r is End),
        data_over(*old(rx)) ==> r is End,
        data_arriving(*final(rx)) == data_arriving(*old(rx)),
        gave_in_order(*final(rx)),
        r is End ==> gave_all(*final(rx)),
{
    match Pin::new(rx).poll_next(cx) {
        Poll::Pending => Polled::Pending,
        Poll::Ready(None) => Polled::End,
        Poll::Ready(Some(Ok(chunk))) => Polled::Item(chunk),
        Poll::Ready(Some(Err(err))) => Polled::Failed(err),
    }
}

/// `Future::poll` of `oneshot::Receiver`: the trailers, or the end where the
/// sender is gone without sending any, or where they came before. It never fails.
/// When they come depends on the sender.
#[verifier::external_body]
pub(crate) fn trailers_poll(rx: &mut OneshotReceiver<HeaderMap>, cx: &mut Context<'_>) -> (r:
    Polled<HeaderMap, ()>)
    ensures
        trailers_polls(*final(rx)) == trailers_polls(*old(rx)).push(r),
        trailers_arriving(*final(rx)) == trailers_arriving(*old(rx)),
        r is Item ==> trailers_arriving(*final(rx)) == Some(r->Item_0),
        r is Item ==> !gave_trailers(trailers_polls(*old(rx))),
        r is End ==> gave_trailers(trailers_polls(*old(rx))) || trailers_arriving(
            *final(rx),
        ) is None,
        !(r is Failed),
{
    match Pin::new(rx).poll(cx) {
        Poll::Pending => Polled::Pending,
        Poll::Ready(Ok(trailers)) => Polled::Item(trailers),
        Poll::Ready(Err(_)) => Polled::End,
    }
}

/// `oneshot::Sender::send`: the trailers are put into the channel, or given back
/// where nobody waits for them. Which of these it is depends on the receiver.
#[verifier::external_body]
pub(crate) fn trailers_send(tx: OneshotSender<HeaderMap>, trailers: HeaderMap) -> (r:
    std::result::Result<(), HeaderMap>)
    ensures
        r is Ok ==> trailers_through(tx) == Some(trailers),
        r is Err ==> trailers_through(tx) is None,
        r is Err ==> r->Err_0 == trailers,
{
    tx.send(trailers)
}

} // verus!
