//! A body that is received: from a channel, from an HTTP/2 stream, or from the
//! application.

use std::task::Context;

use bytes::Bytes;
use futures_channel::mpsc;
use futures_channel::oneshot;
use h2::RecvStream;
use http::header::HeaderMap;
use vstd::prelude::*;

use crate::body::length::DecodedLength;
use crate::common::task::{ready_or_closed, ready_or_closed_is, sent_or_closed, Polled};
use crate::common::watch;
use crate::error::{Cause, Error, Kind as ErrorKind, Link, Result, User};
use crate::ffi::body::UserBody;
use crate::outside::bytes_crate::content;
use crate::outside::futures_crate::{
    arrived, data_arriving, data_channel, data_clones, data_is_terminated, data_over,
    data_poll_next, data_poll_ready, data_polls, data_sender_clone, data_sent, data_through,
    data_try_send, gave_all, gave_in_order, gave_trailers, trailers_arriving, trailers_channel,
    trailers_poll, trailers_polls, trailers_send, trailers_through, DataItem,
};
use crate::outside::h2_crate::{
    h2_error_code, h2_error_has_io, h2_error_io, h2_error_reason, reason_cancel, reason_no_error,
    reason_number, recv_poll_data, recv_poll_trailers, recv_release_capacity, stream_data_polls,
    stream_released, stream_trailers_polls,
};

verus! {

/// The receiver has not asked for data yet.
pub const WANT_PENDING: usize = 1;

/// The receiver has asked for data.
pub const WANT_READY: usize = 2;

/// A piece of a body.
#[derive(Debug)]
pub enum Frame {
    /// Bytes of the body.
    Data(Bytes),
    /// The trailers behind it.
    Trailers(HeaderMap),
}

/// What a poll of a body says about the connection, for its keep-alive.
#[derive(Debug, Clone, Copy, PartialEq, Eq, Structural)]
pub enum Activity {
    /// Nothing.
    Idle,
    /// So many bytes of data came.
    Data(usize),
    /// Something came that is no data.
    NonData,
}

/// Bounds on the number of bytes in a body.
#[derive(Debug, Clone, Copy, PartialEq, Eq, Structural)]
pub struct SizeHint {
    /// At least so many.
    pub lower: u64,
    /// At most so many, where that is known.
    pub upper: Option<u64>,
}

impl SizeHint {
    /// Exactly so many.
    pub open spec fn exact(n: u64) -> SizeHint {
        SizeHint { lower: n, upper: Some(n) }
    }

    /// Any number.
    pub open spec fn any() -> SizeHint {
        SizeHint { lower: 0, upper: None }
    }
}

/// A body that is received.
pub struct Incoming {
    kind: Kind,
}

enum Kind {
    Empty,
    Chan {
        content_length: DecodedLength,
        want_tx: watch::Sender,
        data_rx: mpsc::Receiver<DataItem>,
        trailers_rx: oneshot::Receiver<HeaderMap>,
    },
    H2 { content_length: DecodedLength, data_done: bool, recv: RecvStream },
    Ffi(UserBody),
}

/// What kind of body it is, and how far it has come.
pub enum Shape {
    /// No bytes.
    Empty,
    /// From a channel; what is left of its length, where its data and its trailers
    /// come from, and where its sender is told what is wanted.
    Chan(DecodedLength, mpsc::Receiver<DataItem>, oneshot::Receiver<HeaderMap>, watch::Sender),
    /// From an HTTP/2 stream; what is left of its length, whether its data has
    /// ended, and the stream.
    H2(DecodedLength, bool, RecvStream),
    /// From the application; its side of it.
    Ffi(UserBody),
}

/// The sender of a body's channel.
pub struct Sender {
    want_rx: watch::Receiver,
    data_tx: mpsc::Sender<DataItem>,
    trailers_tx: Option<oneshot::Sender<HeaderMap>>,
}

/// What is left of a length once a chunk came: a chunk that is longer than what
/// is left wraps round, as unsigned subtraction does.
pub open spec fn read_off(len: DecodedLength, n: nat) -> DecodedLength {
    match len.known() {
        Some(known) => if n <= known {
            DecodedLength((known - n) as u64)
        } else {
            DecodedLength((known - n + 0x1_0000_0000_0000_0000) as u64)
        },
        None => len,
    }
}

fn read_off_exec(len: DecodedLength, n: usize) -> (r: DecodedLength)
    ensures
        r == read_off(len, n as nat),
{
    let amt: u64 = n as u64;
    match len.into_opt() {
        Some(known) => {
            if amt <= known {
                let mut rest: DecodedLength = len;
                rest.sub_if(amt);
                rest
            } else {
                DecodedLength(known.wrapping_sub(amt))
            }
        },
        None => len,
    }
}

/// What is left of a length once a piece of data was polled for.
pub open spec fn rest_of<E>(len: DecodedLength, polled: Polled<Bytes, E>) -> DecodedLength {
    match polled {
        Polled::Item(chunk) => read_off(len, content(chunk).len()),
        _ => len,
    }
}

/// What polling the data channel comes to: a frame, a failure or a wait; or, at
/// the end of the data, nothing yet.
pub open spec fn chan_data_frame(polled: Polled<Bytes, Error>) -> Option<Polled<Frame, Error>> {
    match polled {
        Polled::Pending => Some(Polled::Pending),
        Polled::End => None,
        Polled::Item(chunk) => Some(Polled::Item(Frame::Data(chunk))),
        Polled::Failed(err) => Some(Polled::Failed(err)),
    }
}

/// What polling the data channel comes to: a frame, a failure or a wait; or, at
/// the end of the data, nothing yet.
pub fn chan_data(content_length: &mut DecodedLength, polled: Polled<Bytes, Error>) -> (r: Option<
    Polled<Frame, Error>,
>)
    ensures
        r == chan_data_frame(polled),
        *final(content_length) == rest_of(*old(content_length), polled),
{
    match polled {
        Polled::Pending => Some(Polled::Pending),
        Polled::End => None,
        Polled::Item(chunk) => {
            *content_length = read_off_exec(*content_length, chunk.len());
            Some(Polled::Item(Frame::Data(chunk)))
        },
        Polled::Failed(err) => Some(Polled::Failed(err)),
    }
}

/// What polling for trailers comes to once the data of a channel has ended. A
/// sender that is gone without trailers ends the body.
pub open spec fn chan_trailers_frame(polled: Polled<HeaderMap, ()>) -> Polled<Frame, Error> {
    match polled {
        Polled::Pending => Polled::Pending,
        Polled::Item(trailers) => Polled::Item(Frame::Trailers(trailers)),
        Polled::End | Polled::Failed(_) => Polled::End,
    }
}

/// What polling for trailers comes to once the data of a channel has ended.
pub fn chan_trailers(polled: Polled<HeaderMap, ()>) -> (r: Polled<Frame, Error>)
    ensures
        r == chan_trailers_frame(polled),
{
    match polled {
        Polled::Pending => Polled::Pending,
        Polled::Item(trailers) => Polled::Item(Frame::Trailers(trailers)),
        Polled::End | Polled::Failed(_) => Polled::End,
    }
}

/// Whether an error of an HTTP/2 stream merely ends its body: NO_ERROR (0) and
/// CANCEL (8) do.
pub open spec fn ends_quietly(err: h2::Error) -> bool {
    h2_error_code(err) == Some(0u32) || h2_error_code(err) == Some(8u32)
}

/// Whether this is what polling the data of an HTTP/2 stream comes to; at the end of
/// the data, that is nothing yet.
pub open spec fn h2_data_frame_is(
    polled: Polled<Bytes, h2::Error>,
    r: Option<Polled<Frame, Error>>,
) -> bool {
    match polled {
        Polled::Pending => r == Some(Polled::<Frame, Error>::Pending),
        Polled::End => r is None,
        Polled::Item(data) => r == Some(Polled::<Frame, Error>::Item(Frame::Data(data))),
        Polled::Failed(err) => if ends_quietly(err) {
            r == Some(Polled::<Frame, Error>::End)
        } else {
            &&& r is Some
            &&& r->0 is Failed
            &&& r->0->Failed_0.spec_kind() == ErrorKind::Body
            &&& r->0->Failed_0.chain() == seq![Link::H2(err)]
        },
    }
}

/// What polling the data of an HTTP/2 stream comes to; at the end of the data,
/// nothing yet.
pub fn h2_data(content_length: &mut DecodedLength, polled: Polled<Bytes, h2::Error>) -> (r: Option<
    Polled<Frame, Error>,
>)
    ensures
        h2_data_frame_is(polled, r),
        *final(content_length) == rest_of(*old(content_length), polled),
{
    match polled {
        Polled::Pending => Some(Polled::Pending),
        Polled::End => None,
        Polled::Item(data) => {
            *content_length = read_off_exec(*content_length, data.len());
            Some(Polled::Item(Frame::Data(data)))
        },
        Polled::Failed(err) => {
            let quiet: bool = match h2_error_reason(&err) {
                Some(reason) => {
                    let code: u32 = reason_number(&reason);
                    code == reason_number(&reason_no_error()) || code == reason_number(
                        &reason_cancel(),
                    )
                },
                None => false,
            };
            if quiet {
                Some(Polled::End)
            } else {
                Some(Polled::Failed(Error::new_body(Cause::h2(err))))
            }
        },
    }
}

/// Whether this is what polling for the trailers of an HTTP/2 stream comes to.
pub open spec fn h2_trailers_frame_is(
    polled: Polled<HeaderMap, h2::Error>,
    r: Polled<Frame, Error>,
    activity: Activity,
) -> bool {
    match polled {
        Polled::Pending => r is Pending && activity == Activity::Idle,
        Polled::End => r is End && activity == Activity::NonData,
        Polled::Item(trailers) => r == Polled::<Frame, Error>::Item(Frame::Trailers(trailers))
            && activity == Activity::NonData,
        Polled::Failed(err) => {
            &&& activity == Activity::Idle
            &&& r is Failed
            &&& h2_error_has_io(err) ==> r->Failed_0.spec_kind() == ErrorKind::Io
                && r->Failed_0.chain() == seq![Link::Io(h2_error_io(err))]
            &&& !h2_error_has_io(err) ==> r->Failed_0.spec_kind() == ErrorKind::Http2
                && r->Failed_0.chain() == seq![Link::H2(err)]
        },
    }
}

/// What polling for the trailers of an HTTP/2 stream comes to.
pub fn h2_trailers(polled: Polled<HeaderMap, h2::Error>) -> (r: (Polled<Frame, Error>, Activity))
    ensures
        h2_trailers_frame_is(polled, r.0, r.1),
{
    match polled {
        Polled::Pending => (Polled::Pending, Activity::Idle),
        Polled::End => (Polled::End, Activity::NonData),
        Polled::Item(trailers) => (Polled::Item(Frame::Trailers(trailers)), Activity::NonData),
        Polled::Failed(err) => (Polled::Failed(Error::new_h2(err)), Activity::Idle),
    }
}

/// Whether some polls gave the trailers that arrive: once, and an end without them
/// only where none arrive.
pub open spec fn gave_arriving_trailers(
    polls: Seq<Polled<HeaderMap, ()>>,
    arriving: Option<HeaderMap>,
) -> bool {
    &&& forall|i: int|
        0 <= i < polls.len() && #[trigger] polls[i] is Item ==> arriving == Some(polls[i]->Item_0)
    &&& forall|i: int| 0 <= i < polls.len() ==> !(#[trigger] polls[i] is Failed)
    &&& forall|i: int|
        0 <= i < polls.len() && #[trigger] polls[i] is End ==> gave_trailers(polls) || arriving
            is None
    &&& forall|i: int, j: int|
        0 <= i < j < polls.len() ==> !(#[trigger] polls[i] is Item && #[trigger] polls[j] is Item)
}

proof fn lemma_gave_trailers_push(
    polls: Seq<Polled<HeaderMap, ()>>,
    next: Polled<HeaderMap, ()>,
    arriving: Option<HeaderMap>,
)
    requires
        gave_arriving_trailers(polls, arriving),
        next is Item ==> arriving == Some(next->Item_0) && !gave_trailers(polls),
        next is End ==> gave_trailers(polls) || arriving is None,
        !(next is Failed),
    ensures
        gave_arriving_trailers(polls.push(next), arriving),
        gave_trailers(polls.push(next)) <==> gave_trailers(polls) || next is Item,
{
    let more = polls.push(next);
    if gave_trailers(polls) {
        let i = choose|i: int| 0 <= i < polls.len() && #[trigger] polls[i] is Item;
        assert(more[i] is Item);
    }
    if next is Item {
        assert(more[polls.len() as int] is Item);
    }
    if gave_trailers(more) {
        let i = choose|i: int| 0 <= i < more.len() && #[trigger] more[i] is Item;
        if i < polls.len() {
            assert(polls[i] is Item);
        }
    }
    assert forall|i: int| 0 <= i < more.len() && #[trigger] more[i] is Item implies arriving
        == Some(more[i]->Item_0) by {
        if i < polls.len() {
            assert(polls[i] is Item);
        }
    }
    assert forall|i: int| 0 <= i < more.len() && #[trigger] more[i] is End implies gave_trailers(
        more,
    ) || arriving is None by {
        if i < polls.len() {
            assert(polls[i] is End);
        }
    }
    assert forall|i: int, j: int| 0 <= i < j < more.len() implies !(#[trigger] more[i] is Item
        && #[trigger] more[j] is Item) by {
        assert(more[i] == polls[i]);
        if j < polls.len() {
            assert(more[j] == polls[j]);
        } else if polls[i] is Item {
            assert(gave_trailers(polls));
        }
    }
}

/// Whether the polls of a body from a channel gave what arrives there: the data in
/// order and, at its end, all of it; the trailers once, and none only where none
/// arrive.
pub open spec fn gave_what_arrives(shape: Shape) -> bool
    recommends
        shape is Chan,
{
    &&& gave_in_order(shape->Chan_1)
    &&& data_over(shape->Chan_1) ==> gave_all(shape->Chan_1)
    &&& gave_arriving_trailers(trailers_polls(shape->Chan_2), trailers_arriving(shape->Chan_2))
}

/// What a poll does to a body from a channel, and gives: the data is polled for
/// until its end, the trailers from then on.
pub open spec fn chan_step(before: Shape, after: Shape, r: Polled<Frame, Error>) -> bool
    recommends
        before is Chan,
{
    let (data, trailers) = (before->Chan_1, before->Chan_2);
    let (data_after, trailers_after) = (after->Chan_1, after->Chan_2);
    let polled = data_polls(data_after).last();
    let polled_trailers = trailers_polls(trailers_after).last();
    &&& after is Chan
    &&& before->Chan_3.tells(after->Chan_3, WANT_READY)
    &&& data_arriving(data_after) == data_arriving(data)
    &&& trailers_arriving(trailers_after) == trailers_arriving(trailers)
    &&& gave_what_arrives(before) ==> gave_what_arrives(after)
    &&& if data_over(data) {
        &&& data_after == data
        &&& after->Chan_0 == before->Chan_0
    } else {
        &&& data_polls(data_after) == data_polls(data).push(polled)
        &&& data_over(data_after) == (polled is End)
        &&& after->Chan_0 == rest_of(before->Chan_0, polled)
    }
    &&& if data_over(data_after) {
        &&& trailers_polls(trailers_after) == trailers_polls(trailers).push(polled_trailers)
        &&& r == chan_trailers_frame(polled_trailers)
    } else {
        &&& trailers_after == trailers
        &&& chan_data_frame(polled) == Some(r)
    }
}

/// What a poll does to the body of an HTTP/2 stream, and gives: the data is polled
/// for until its end, the trailers from then on. The peer may send as many bytes
/// more as came.
pub open spec fn h2_step(
    before: Shape,
    after: Shape,
    r: Polled<Frame, Error>,
    activity: Activity,
) -> bool
    recommends
        before is H2,
{
    let (recv, recv_after) = (before->H2_2, after->H2_2);
    let polled = stream_data_polls(recv_after).last();
    let polled_trailers = stream_trailers_polls(recv_after).last();
    &&& after is H2
    &&& if before->H2_1 {
        &&& after->H2_1
        &&& after->H2_0 == before->H2_0
        &&& stream_data_polls(recv_after) == stream_data_polls(recv)
        &&& stream_released(recv_after) == stream_released(recv)
    } else {
        &&& stream_data_polls(recv_after) == stream_data_polls(recv).push(polled)
        &&& after->H2_1 == (polled is End)
        &&& after->H2_0 == rest_of(before->H2_0, polled)
        &&& stream_released(recv_after) == (match polled {
            Polled::Item(data) => stream_released(recv).push(content(data).len() as usize),
            _ => stream_released(recv),
        })
    }
    &&& if after->H2_1 {
        &&& stream_trailers_polls(recv_after) == stream_trailers_polls(recv).push(
            polled_trailers,
        )
        &&& h2_trailers_frame_is(polled_trailers, r, activity)
    } else {
        &&& stream_trailers_polls(recv_after) == stream_trailers_polls(recv)
        &&& h2_data_frame_is(polled, Some(r))
        &&& activity == (match polled {
            Polled::Item(data) => Activity::Data(content(data).len() as usize),
            _ => Activity::Idle,
        })
    }
}

/// What a poll does to a body, and gives.
pub open spec fn frame_step(
    before: Shape,
    after: Shape,
    r: Polled<Frame, Error>,
    activity: Activity,
) -> bool {
    match before {
        Shape::Empty => after is Empty && r is End && activity == Activity::Idle,
        Shape::Chan(..) => chan_step(before, after, r) && activity == Activity::Idle,
        Shape::H2(..) => h2_step(before, after, r, activity),
        Shape::Ffi(body) => {
            &&& after is Ffi
            &&& activity == Activity::Idle
            &&& body.gives_frame(after->Ffi_0, r)
        },
    }
}

/// Whether a body is one that just came out of a channel: of a length, with nothing
/// received yet.
pub open spec fn new_chan(shape: Shape, len: DecodedLength) -> bool {
    &&& shape is Chan
    &&& shape->Chan_0 == len
    &&& data_polls(shape->Chan_1).len() == 0
    &&& !data_over(shape->Chan_1)
    &&& trailers_polls(shape->Chan_2).len() == 0
    &&& gave_what_arrives(shape)
}

impl Incoming {
    /// What kind of body it is, and how far it has come.
    pub closed spec fn shape(&self) -> Shape {
        match self.kind {
            Kind::Empty => Shape::Empty,
            Kind::Chan { content_length, want_tx, data_rx, trailers_rx } => Shape::Chan(
                content_length,
                data_rx,
                trailers_rx,
                want_tx,
            ),
            Kind::H2 { content_length, data_done, recv } => Shape::H2(
                content_length,
                data_done,
                recv,
            ),
            Kind::Ffi(body) => Shape::Ffi(body),
        }
    }

    /// The application's side, of a body that the application provides.
    pub open spec fn user_body(&self) -> Option<UserBody> {
        match self.shape() {
            Shape::Ffi(body) => Some(body),
            _ => None,
        }
    }

    /// It became another by telling the sender of its channel, where it has one, that
    /// nobody will read the body any more.
    pub open spec fn closes(&self, after: Incoming) -> bool {
        match self.shape() {
            Shape::Chan(len, data, trailers, want) => {
                &&& after.shape() is Chan
                &&& after.shape() == Shape::Chan(len, data, trailers, after.shape()->Chan_3)
                &&& want.tells(after.shape()->Chan_3, watch::CLOSED)
            },
            _ => after == *self,
        }
    }

    /// It belongs to a sender: both are made of the two ends of three new channels, of
    /// which that for what is wanted holds this at first.
    pub closed spec fn fed_by(&self, tx: Sender, want: usize) -> bool {
        match self.kind {
            Kind::Chan { want_tx, data_rx, trailers_rx, .. } => {
                &&& call_ensures(data_channel, (), (tx.data_tx, data_rx))
                &&& tx.trailers_tx is Some
                &&& call_ensures(trailers_channel, (), (tx.trailers_tx->0, trailers_rx))
                &&& want_tx.starts_from(want)
                &&& want_tx.reaches(tx.want_rx)
            },
            _ => false,
        }
    }

    /// A body that comes in chunks through a channel, and its sender.
    pub fn channel() -> (r: (Sender, Incoming))
        ensures
            r.1.fed_by(r.0, WANT_READY),
            r.0.trailers_open(),
            r.0.sent() == Seq::<DataItem>::empty(),
            r.0.clones() == 0,
            r.0.data_goes_to(r.1.shape()),
            new_chan(r.1.shape(), DecodedLength::spec_chunked()),
    {
        Incoming::new_channel(DecodedLength::chunked(), false)
    }

    /// A body of a length that comes through a channel, and its sender. With
    /// `wanter` the sender is not ready before the body was polled.
    pub fn new_channel(content_length: DecodedLength, wanter: bool) -> (r: (Sender, Incoming))
        ensures
            r.1.fed_by(r.0, spec_initial_want(wanter)),
            r.0.trailers_open(),
            r.0.sent() == Seq::<DataItem>::empty(),
            r.0.clones() == 0,
            r.0.data_goes_to(r.1.shape()),
            new_chan(r.1.shape(), content_length),
    {
        let (data_tx, data_rx) = data_channel();
        let (trailers_tx, trailers_rx) = trailers_channel();
        let want: usize = initial_want(wanter);
        let (want_tx, want_rx) = watch::channel(want);
        let tx = Sender { want_rx, data_tx, trailers_tx: Some(trailers_tx) };
        let rx = Incoming { kind: Kind::Chan { content_length, want_tx, data_rx, trailers_rx } };
        (tx, rx)
    }

    /// A body without bytes.
    pub fn empty() -> (r: Incoming)
        ensures
            r.shape() is Empty,
    {
        Incoming { kind: Kind::Empty }
    }

    /// A body that the application provides.
    pub fn ffi() -> (r: Incoming)
        ensures
            r.user_body() is Some,
            r.user_body()->0.data_func is None,
            r.user_body()->0.userdata == 0,
    {
        Incoming { kind: Kind::Ffi(UserBody::new()) }
    }

    /// The length of a stream's body, given whether the stream has ended: where
    /// it has, an unknown length is zero.
    pub open spec fn spec_h2_length(
        content_length: DecodedLength,
        end_stream: bool,
    ) -> DecodedLength {
        if content_length.known() is None && end_stream {
            DecodedLength::spec_zero()
        } else {
            content_length
        }
    }

    /// The length of a stream's body, given whether the stream has ended.
    pub fn h2_length(content_length: DecodedLength, end_stream: bool) -> (r: DecodedLength)
        ensures
            r == Incoming::spec_h2_length(content_length, end_stream),
    {
        if !content_length.is_exact() && end_stream {
            DecodedLength::zero()
        } else {
            content_length
        }
    }

    /// The body of an HTTP/2 stream.
    pub fn h2(recv: RecvStream, content_length: DecodedLength) -> (r: Incoming)
        ensures
            exists|end_stream: bool| #[trigger]
                call_ensures(RecvStream::is_end_stream, (&recv,), end_stream) && r.shape()
                    == Shape::H2(
                    Incoming::spec_h2_length(content_length, end_stream),
                    false,
                    recv,
                ),
    {
        let end_stream: bool = recv.is_end_stream();
        let content_length: DecodedLength = Incoming::h2_length(content_length, end_stream);
        Incoming { kind: Kind::H2 { content_length, data_done: false, recv } }
    }

    /// The application's side of the body, which becomes a body that the
    /// application provides where it was not one. The sender of a channel that was its
    /// source is told.
    pub fn as_ffi_mut(&mut self) -> (r: &mut UserBody)
        ensures
            old(self).user_body() is Some ==> *r == old(self).user_body()->0,
            old(self).user_body() is None ==> r.data_func is None && r.userdata == 0,
            final(self).user_body() == Some(*final(r)),
            old(self).user_body() is None ==> exists|closed: Incoming| #[trigger]
                old(self).closes(closed),
    {
        if !matches!(self.kind, Kind::Ffi(_)) {
            self.close();
            self.kind = Kind::Ffi(UserBody::new());
        }
        match &mut self.kind {
            Kind::Ffi(body) => body,
            _ => vstd::pervasive::unreached(),
        }
    }

    /// Polls for the next frame of the body.
    pub fn poll_frame(&mut self, cx: &mut Context<'_>) -> (r: (Polled<Frame, Error>, Activity))
        ensures
            frame_step(old(self).shape(), final(self).shape(), r.0, r.1),
    {
        match &mut self.kind {
            Kind::Empty => (Polled::End, Activity::Idle),
            Kind::Chan { content_length, want_tx, data_rx, trailers_rx } => {
                want_tx.send(WANT_READY);
                if !data_is_terminated(data_rx) {
                    let polled = data_poll_next(data_rx, cx);
                    if let Some(r) = chan_data(content_length, polled) {
                        return (r, Activity::Idle);
                    }
                }
                let ghost before = *trailers_rx;
                let polled = trailers_poll(trailers_rx, cx);
                proof {
                    if gave_what_arrives(old(self).shape()) {
                        lemma_gave_trailers_push(
                            trailers_polls(before),
                            polled,
                            trailers_arriving(before),
                        );
                    }
                }
                (chan_trailers(polled), Activity::Idle)
            },
            Kind::H2 { content_length, data_done, recv } => {
                if !*data_done {
                    let polled = recv_poll_data(recv, cx);
                    let mut activity: Activity = Activity::Idle;
                    if let Polled::Item(data) = &polled {
                        recv_release_capacity(recv, data.len());
                        activity = Activity::Data(data.len());
                    }
                    if let Some(r) = h2_data(content_length, polled) {
                        return (r, activity);
                    }
                    *data_done = true;
                }
                let polled = recv_poll_trailers(recv, cx);
                h2_trailers(polled)
            },
            Kind::Ffi(body) => (body.poll_data(cx), Activity::Idle),
        }
    }

    /// Whether nothing more will come, as far as that is known without polling.
    pub fn is_end_stream(&self) -> (r: bool)
        ensures
            !(self.shape() is H2) ==> r == has_ended(self.shape()),
            self.shape() is H2 ==> call_ensures(
                RecvStream::is_end_stream,
                (&self.shape()->H2_2,),
                r,
            ),
    {
        match &self.kind {
            Kind::Empty => true,
            Kind::Chan { content_length, .. } => *content_length == DecodedLength::zero(),
            Kind::H2 { recv, .. } => recv.is_end_stream(),
            Kind::Ffi(_) => false,
        }
    }

    /// The bounds on what is left of the body.
    pub fn size_hint(&self) -> (r: SizeHint)
        ensures
            r == hint_of(self.shape()),
    {
        match &self.kind {
            Kind::Empty => SizeHint { lower: 0, upper: Some(0) },
            Kind::Chan { content_length, .. } => opt_len(*content_length),
            Kind::H2 { content_length, .. } => opt_len(*content_length),
            Kind::Ffi(_) => SizeHint { lower: 0, upper: None },
        }
    }

    /// How the body is shown to a programmer.
    pub fn debug_text(&self) -> (text: &'static str)
        ensures
            self.shape() is Empty ==> text@ == "Body(Empty)"@,
            !(self.shape() is Empty) ==> text@ == "Body(Streaming)"@,
    {
        match &self.kind {
            Kind::Empty => "Body(Empty)",
            _ => "Body(Streaming)",
        }
    }

    /// Tells the sender of the body's channel, where it has one, that nobody will
    /// read the body any more.
    pub fn close(&mut self)
        ensures
            old(self).closes(*final(self)),
    {
        if let Kind::Chan { want_tx, .. } = &mut self.kind {
            want_tx.close();
        }
    }
}

fn opt_len(len: DecodedLength) -> (r: SizeHint)
    ensures
        r == (match len.known() {
            Some(n) => SizeHint::exact(n),
            None => SizeHint::any(),
        }),
{
    match len.into_opt() {
        Some(n) => SizeHint { lower: n, upper: Some(n) },
        None => SizeHint { lower: 0, upper: None },
    }
}

/// What the sender of a new channel sees of the receiver.
pub open spec fn spec_initial_want(wanter: bool) -> usize {
    if wanter {
        WANT_PENDING
    } else {
        WANT_READY
    }
}

/// What the sender of a new channel sees of the receiver.
pub fn initial_want(wanter: bool) -> (want: usize)
    ensures
        want == spec_initial_want(wanter),
{
    if wanter {
        WANT_PENDING
    } else {
        WANT_READY
    }
}

/// Whether the sender may go on.
pub enum WantState {
    /// The receiver has asked for data.
    Ready,
    /// The receiver has not asked yet.
    Waiting,
    /// The receiver is gone.
    Gone,
}

/// Whether the sender may go on, given what it sees of the receiver.
pub open spec fn want_state(want: usize) -> WantState {
    if want == WANT_READY {
        WantState::Ready
    } else if want == WANT_PENDING {
        WantState::Waiting
    } else {
        WantState::Gone
    }
}

/// Whether this is how the sender goes on, given what it sees of the receiver.
pub open spec fn want_ready_is(want: usize, r: Polled<(), Error>) -> bool {
    match want_state(want) {
        WantState::Ready => r is Item,
        WantState::Waiting => r is Pending,
        WantState::Gone => r is Failed && r->Failed_0.is_bare(ErrorKind::ChannelClosed),
    }
}

/// Whether the sender may go on, given what it sees of the receiver: it is ready
/// where the receiver has asked for data, waits where it has not, and fails where
/// the receiver is gone.
pub fn want_ready(want: usize) -> (r: Polled<(), Error>)
    ensures
        want_ready_is(want, r),
{
    if want == WANT_READY {
        Polled::Item(())
    } else if want == WANT_PENDING {
        Polled::Pending
    } else {
        Polled::Failed(Error::new_closed())
    }
}

/// The sender of a channel with a wanter waits until the body is polled for the
/// first time; any other sender may go on at once. Polling the body makes either
/// ready, and closing it ends either.
pub proof fn law_wanter_waits_for_the_first_poll(wanter: bool)
    ensures
        want_state(spec_initial_want(wanter)) == (if wanter {
            WantState::Waiting
        } else {
            WantState::Ready
        }),
        want_state(WANT_READY) is Ready,
        want_state(watch::CLOSED) is Gone,
        spec_initial_want(wanter) != watch::CLOSED,
{
}

/// The data that was not sent, given what came of sending it.
pub fn given_back(sent: std::result::Result<(), DataItem>) -> (r: std::result::Result<(), Bytes>)
    requires
        sent is Err ==> sent->Err_0 is Ok,
    ensures
        sent is Ok ==> r is Ok,
        sent is Err ==> r == Err::<(), Bytes>(sent->Err_0->Ok_0),
{
    match sent {
        Ok(()) => Ok(()),
        Err(item) => match item {
            Ok(back) => Err(back),
            Err(_) => vstd::pervasive::unreached(),
        },
    }
}

/// Polling a channel for room can give this.
pub closed spec fn polls_room(
    tx: &mut mpsc::Sender<DataItem>,
    cx: &mut Context<'_>,
    polled: Polled<(), ()>,
) -> bool {
    call_ensures(data_poll_ready, (tx, cx), polled)
}

/// Handing data to a channel can come to this.
pub closed spec fn hands_data(
    tx: &mut mpsc::Sender<DataItem>,
    chunk: Bytes,
    sent: std::result::Result<(), DataItem>,
) -> bool {
    call_ensures(data_try_send, (tx, Ok::<Bytes, Error>(chunk)), sent)
}

/// Cloning the sender of a channel can give this one.
pub closed spec fn clones_sender(
    tx: &mut mpsc::Sender<DataItem>,
    other: mpsc::Sender<DataItem>,
) -> bool {
    call_ensures(data_sender_clone, (tx,), other)
}

/// Handing an error to a channel can come to this.
pub closed spec fn hands_error(
    tx: &mut mpsc::Sender<DataItem>,
    err: Error,
    sent: std::result::Result<(), DataItem>,
) -> bool {
    call_ensures(data_try_send, (tx, Err::<Bytes, Error>(err)), sent)
}

/// Handing trailers to their channel can come to this.
pub closed spec fn hands_trailers(
    tx: oneshot::Sender<HeaderMap>,
    trailers: HeaderMap,
    sent: std::result::Result<(), HeaderMap>,
) -> bool {
    call_ensures(trailers_send, (tx, trailers), sent)
}

// What the calls above come to is what these functions of them say.
proof fn lemma_calls()
    ensures
        forall|tx: &mut mpsc::Sender<DataItem>, c: &mut Context<'_>, polled: Polled<(), ()>|
            #[trigger] call_ensures(data_poll_ready, (tx, c), polled) ==> polls_room(tx, c, polled),
        forall|
            tx: &mut mpsc::Sender<DataItem>,
            chunk: Bytes,
            sent: std::result::Result<(), DataItem>,
        | #[trigger]
            call_ensures(data_try_send, (tx, Ok::<Bytes, Error>(chunk)), sent) ==> hands_data(
                tx,
                chunk,
                sent,
            ),
        forall|tx: &mut mpsc::Sender<DataItem>, other: mpsc::Sender<DataItem>| #[trigger]
            call_ensures(data_sender_clone, (tx,), other) ==> clones_sender(tx, other),
        forall|
            tx: &mut mpsc::Sender<DataItem>,
            err: Error,
            sent: std::result::Result<(), DataItem>,
        | #[trigger]
            call_ensures(data_try_send, (tx, Err::<Bytes, Error>(err)), sent) ==> hands_error(
                tx,
                err,
                sent,
            ),
{
}

impl Sender {
    /// Where the sender sees what the receiver wants.
    pub closed spec fn want_end(&self) -> watch::Receiver {
        self.want_rx
    }

    /// The end of the channel that data is put in.
    pub closed spec fn data_end(&self) -> mpsc::Sender<DataItem> {
        self.data_tx
    }

    /// The end of the channel that trailers are put in, while they can be.
    pub closed spec fn trailers_end(&self) -> Option<oneshot::Sender<HeaderMap>> {
        self.trailers_tx
    }

    /// The data that was sent, the first first.
    pub open spec fn sent(&self) -> Seq<DataItem> {
        data_sent(self.data_end())
    }

    /// How many more senders of the channel were made of it.
    pub open spec fn clones(&self) -> nat {
        data_clones(self.data_end())
    }

    /// Whether trailers can still be sent.
    pub open spec fn trailers_open(&self) -> bool {
        self.trailers_end() is Some
    }

    /// What is put in here arrives at a body.
    pub open spec fn data_goes_to(&self, shape: Shape) -> bool {
        &&& shape is Chan
        &&& data_through(self.data_end()) == data_arriving(shape->Chan_1)
        &&& self.trailers_open() ==> trailers_through(self.trailers_end()->0) == trailers_arriving(
            shape->Chan_2,
        )
    }

    /// Looking at the receiver, with the task registered to be woken, can show that it
    /// wants this.
    pub open spec fn sees(&self, cx: Context<'_>, want: usize) -> bool {
        self.want_end().shows_registered(cx, want)
    }

    /// Polls until the body can take more data: first the receiver must have asked
    /// for some, then the channel must have room.
    pub fn poll_ready(&mut self, cx: &mut Context<'_>) -> (r: Polled<(), Error>)
        ensures
            exists|want: usize| #[trigger]
                old(self).sees(*old(cx), want) && if want_state(want) is Ready {
                    exists|
                        tx: &mut mpsc::Sender<DataItem>,
                        c: &mut Context<'_>,
                        polled: Polled<(), ()>,
                    |
                        *tx == old(self).data_end() && *final(tx) == final(self).data_end() && *c
                            == *old(cx) && *final(c) == *final(cx) && #[trigger] polls_room(
                            tx,
                            c,
                            polled,
                        ) && ready_or_closed_is(polled, r)
                } else {
                    want_ready_is(want, r) && *final(self) == *old(self)
                },
            !(r is End),
            final(self).want_end() == old(self).want_end(),
            final(self).trailers_end() == old(self).trailers_end(),
            final(self).sent() == old(self).sent(),
            data_through(final(self).data_end()) == data_through(old(self).data_end()),
            final(self).clones() == old(self).clones(),
    {
        let want = self.poll_want(cx);
        if let Polled::Item(()) = want {
            proof {
                lemma_calls();
            }
            let polled = data_poll_ready(&mut self.data_tx, cx);
            ready_or_closed(polled)
        } else {
            want
        }
    }

    fn poll_want(&mut self, cx: &mut Context<'_>) -> (r: Polled<(), Error>)
        ensures
            exists|want: usize| #[trigger]
                old(self).sees(*old(cx), want) && want_ready_is(want, r),
            *final(self) == *old(self),
            *final(cx) == *old(cx),
    {
        let want: usize = self.want_rx.load(cx);
        assert(old(self).sees(*old(cx), want));
        want_ready(want)
    }

    /// Sends data where the channel is ready for it; the receiver may be gone.
    pub fn send_data(&mut self, chunk: Bytes) -> (r: Result<()>)
        ensures
            exists|tx: &mut mpsc::Sender<DataItem>, sent: std::result::Result<(), DataItem>|
                *tx == old(self).data_end() && *final(tx) == final(self).data_end()
                    && #[trigger] hands_data(tx, chunk, sent) && (sent is Ok <==> r is Ok),
            r is Ok ==> final(self).sent() == old(self).sent().push(Ok(chunk)),
            r is Err ==> final(self).sent() == old(self).sent(),
            r is Err ==> r->Err_0.is_bare(ErrorKind::ChannelClosed),
            final(self).want_end() == old(self).want_end(),
            final(self).trailers_end() == old(self).trailers_end(),
            data_through(final(self).data_end()) == data_through(old(self).data_end()),
            final(self).clones() == old(self).clones(),
    {
        proof {
            lemma_calls();
        }
        let sent = data_try_send(&mut self.data_tx, Ok(chunk));
        sent_or_closed(sent)
    }

    /// Sends the trailers, which can be done once.
    pub fn send_trailers(&mut self, trailers: HeaderMap) -> (r: Result<()>)
        ensures
            !final(self).trailers_open(),
            final(self).want_end() == old(self).want_end(),
            final(self).data_end() == old(self).data_end(),
            !old(self).trailers_open() ==> r is Err,
            old(self).trailers_open() ==> exists|sent: std::result::Result<(), HeaderMap>|
                #[trigger] hands_trailers(old(self).trailers_end()->0, trailers, sent) && (sent
                    is Ok <==> r is Ok),
            old(self).trailers_open() ==> trailers_through(old(self).trailers_end()->0) == (if r
                is Ok {
                Some(trailers)
            } else {
                None
            }),
            r is Err ==> r->Err_0.is_bare(ErrorKind::ChannelClosed),
    {
        let sent = self.try_send_trailers(trailers);
        sent_or_closed(sent)
    }

    /// Sends data at once, or gives it back.
    pub fn try_send_data(&mut self, chunk: Bytes) -> (r: std::result::Result<(), Bytes>)
        ensures
            exists|tx: &mut mpsc::Sender<DataItem>, sent: std::result::Result<(), DataItem>|
                *tx == old(self).data_end() && *final(tx) == final(self).data_end()
                    && #[trigger] hands_data(tx, chunk, sent) && (sent is Ok <==> r is Ok),
            r is Ok ==> final(self).sent() == old(self).sent().push(Ok(chunk)),
            r is Err ==> final(self).sent() == old(self).sent(),
            r is Err ==> r->Err_0 == chunk,
            final(self).want_end() == old(self).want_end(),
            final(self).trailers_end() == old(self).trailers_end(),
            data_through(final(self).data_end()) == data_through(old(self).data_end()),
            final(self).clones() == old(self).clones(),
    {
        proof {
            lemma_calls();
        }
        let sent = data_try_send(&mut self.data_tx, Ok(chunk));
        given_back(sent)
    }

    /// Sends the trailers at once, or gives them back. It can be done once: after
    /// that there is nothing to give back.
    pub fn try_send_trailers(&mut self, trailers: HeaderMap) -> (r: std::result::Result<
        (),
        Option<HeaderMap>,
    >)
        ensures
            !final(self).trailers_open(),
            final(self).want_end() == old(self).want_end(),
            final(self).data_end() == old(self).data_end(),
            !old(self).trailers_open() ==> r == Err::<(), Option<HeaderMap>>(None),
            old(self).trailers_open() ==> exists|sent: std::result::Result<(), HeaderMap>|
                #[trigger] hands_trailers(old(self).trailers_end()->0, trailers, sent) && (sent
                    is Ok <==> r is Ok),
            old(self).trailers_open() ==> trailers_through(old(self).trailers_end()->0) == (if r
                is Ok {
                Some(trailers)
            } else {
                None
            }),
            old(self).trailers_open() && r is Err ==> r->Err_0 == Some(trailers),
    {
        let tx = match self.trailers_tx.take() {
            Some(tx) => tx,
            None => {
                return Err(None);
            },
        };
        let sent = trailers_send(tx, trailers);
        assert(hands_trailers(old(self).trailers_end()->0, trailers, sent));
        match sent {
            Ok(()) => Ok(()),
            Err(back) => Err(Some(back)),
        }
    }

    /// Gives up the body: its reader gets an error.
    pub fn abort(self)
        ensures
            exists|
                tx: &mut mpsc::Sender<DataItem>,
                other: mpsc::Sender<DataItem>,
                new_tx: &mut mpsc::Sender<DataItem>,
                err: Error,
                sent: std::result::Result<(), DataItem>,
            |
                *tx == self.data_end() && #[trigger] clones_sender(tx, other) && *new_tx == other
                    && #[trigger] hands_error(new_tx, err, sent) && err.is_bare(
                    ErrorKind::User(User::BodyWriteAborted),
                ),
    {
        let mut tx: Sender = self;
        let err: Error = Error::new_body_write_aborted();
        tx.send_error(err);
    }

    /// Sends an error to the reader of the body, even where the channel has no
    /// room for data: a new sender brings room of its own.
    pub fn send_error(&mut self, err: Error)
        ensures
            exists|
                tx: &mut mpsc::Sender<DataItem>,
                other: mpsc::Sender<DataItem>,
                new_tx: &mut mpsc::Sender<DataItem>,
                sent: std::result::Result<(), DataItem>,
            |
                *tx == old(self).data_end() && *final(tx) == final(self).data_end()
                    && #[trigger] clones_sender(tx, other) && *new_tx == other
                    && #[trigger] hands_error(new_tx, err, sent),
            final(self).clones() == old(self).clones() + 1,
            final(self).sent() == old(self).sent(),
            final(self).want_end() == old(self).want_end(),
            final(self).trailers_end() == old(self).trailers_end(),
            data_through(final(self).data_end()) == data_through(old(self).data_end()),
    {
        proof {
            lemma_calls();
        }
        let mut tx = data_sender_clone(&mut self.data_tx);
        let _ = data_try_send(&mut tx, Err(err));
    }

    /// How the sender is shown to a programmer, given what it sees of the receiver.
    pub open spec fn spec_state_text(want: usize) -> Seq<char> {
        if want == watch::CLOSED {
            "Sender(Closed)"@
        } else {
            "Sender(Open)"@
        }
    }

    /// How the sender is shown to a programmer, given what it sees of the receiver.
    pub fn state_text(want: usize) -> (text: &'static str)
        ensures
            text@ == Sender::spec_state_text(want),
    {
        if want == watch::CLOSED {
            "Sender(Closed)"
        } else {
            "Sender(Open)"
        }
    }

    /// How the sender is shown to a programmer.
    pub fn debug_text(&self) -> (text: &'static str)
        ensures
            exists|want: usize| #[trigger]
                self.want_end().shows_relaxed(want) && text@ == Sender::spec_state_text(want),
    {
        let want: usize = self.want_rx.peek();
        assert(self.want_end().shows_relaxed(want));
        Sender::state_text(want)
    }
}

/// Whether a body has ended, as far as its kind and its length tell.
pub open spec fn has_ended(shape: Shape) -> bool {
    match shape {
        Shape::Empty => true,
        Shape::Chan(len, ..) => len == DecodedLength::spec_zero(),
        Shape::H2(..) | Shape::Ffi(_) => false,
    }
}

/// The bounds on what is left of a body.
pub open spec fn hint_of(shape: Shape) -> SizeHint {
    match shape {
        Shape::Empty => SizeHint::exact(0),
        Shape::Chan(len, ..) | Shape::H2(len, ..) => match len.known() {
            Some(n) => SizeHint::exact(n),
            None => SizeHint::any(),
        },
        Shape::Ffi(_) => SizeHint::any(),
    }
}

/// The pieces of data that polls gave.
pub open spec fn chunks<E>(polls: Seq<Polled<Bytes, E>>) -> Seq<Bytes>
    decreases polls.len(),
{
    if polls.len() == 0 {
        Seq::empty()
    } else {
        match polls.last() {
            Polled::Item(chunk) => chunks(polls.drop_last()).push(chunk),
            _ => chunks(polls.drop_last()),
        }
    }
}

/// The data that came for a body from a channel or a stream.
pub open spec fn data_came(shape: Shape) -> Seq<Bytes> {
    match shape {
        Shape::Chan(_, data, ..) => chunks(data_polls(data)),
        Shape::H2(_, _, recv) => chunks(stream_data_polls(recv)),
        Shape::Empty | Shape::Ffi(_) => Seq::empty(),
    }
}

/// Whether the data of a body from a channel or a stream is known to have ended.
pub open spec fn data_ended(shape: Shape) -> bool {
    match shape {
        Shape::Chan(_, data, ..) => data_over(data),
        Shape::H2(_, data_done, _) => data_done,
        Shape::Empty => true,
        Shape::Ffi(_) => false,
    }
}

/// The reader of a body from a channel or a stream gets all the data that came, in
/// order and unchanged: a poll hands out the piece that came with it, and where it
/// hands out none, none came.
pub proof fn law_reader_gets_what_came(
    before: Shape,
    after: Shape,
    r: Polled<Frame, Error>,
    activity: Activity,
)
    requires
        before is Chan || before is H2,
        frame_step(before, after, r, activity),
    ensures
        data_came(after) == (if r is Item && r->Item_0 is Data {
            data_came(before).push(r->Item_0->Data_0)
        } else {
            data_came(before)
        }),
{
    match before {
        Shape::Chan(_, data, ..) => {
            let polls = data_polls(data);
            assert(polls.push(data_polls(after->Chan_1).last()).drop_last() =~= polls);
        },
        Shape::H2(_, _, recv) => {
            let polls = stream_data_polls(recv);
            assert(polls.push(stream_data_polls(after->H2_2).last()).drop_last() =~= polls);
        },
        _ => {},
    }
}

/// No data comes behind the end of the data, and trailers come only there.
pub proof fn law_trailers_come_last(
    before: Shape,
    after: Shape,
    r: Polled<Frame, Error>,
    activity: Activity,
)
    requires
        !(before is Ffi),
        frame_step(before, after, r, activity),
    ensures
        data_ended(before) ==> data_ended(after),
        data_ended(before) ==> !(r is Item && r->Item_0 is Data),
        r is Item && r->Item_0 is Trailers ==> data_ended(after),
{
}

/// The body before a poll of a run of polls, given for each the body after it and
/// what it gave.
pub open spec fn before_poll(
    start: Shape,
    run: Seq<(Shape, Polled<Frame, Error>)>,
    i: int,
) -> Shape {
    if i == 0 {
        start
    } else {
        run[i - 1].0
    }
}

/// Whether polls of a body from a channel, one after the other, can give this.
pub open spec fn is_run(start: Shape, run: Seq<(Shape, Polled<Frame, Error>)>) -> bool {
    forall|i: int|
        0 <= i < run.len() ==> chan_step(
            before_poll(start, run, i),
            (#[trigger] run[i]).0,
            run[i].1,
        )
}

/// The data that a run of polls gave.
pub open spec fn data_given(run: Seq<(Shape, Polled<Frame, Error>)>) -> Seq<Bytes>
    decreases run.len(),
{
    if run.len() == 0 {
        Seq::empty()
    } else {
        match run.last().1 {
            Polled::Item(Frame::Data(chunk)) => data_given(run.drop_last()).push(chunk),
            _ => data_given(run.drop_last()),
        }
    }
}

/// The trailers that a run of polls gave.
pub open spec fn trailers_given(run: Seq<(Shape, Polled<Frame, Error>)>) -> Seq<HeaderMap>
    decreases run.len(),
{
    if run.len() == 0 {
        Seq::empty()
    } else {
        match run.last().1 {
            Polled::Item(Frame::Trailers(trailers)) => trailers_given(run.drop_last()).push(
                trailers,
            ),
            _ => trailers_given(run.drop_last()),
        }
    }
}

/// Pieces of data as the items of a channel.
pub open spec fn as_items(pieces: Seq<Bytes>) -> Seq<DataItem> {
    pieces.map_values(|chunk: Bytes| Ok::<Bytes, Error>(chunk))
}

/// The number of bytes in some pieces of data.
pub open spec fn byte_count(pieces: Seq<Bytes>) -> nat
    decreases pieces.len(),
{
    if pieces.len() == 0 {
        0
    } else {
        byte_count(pieces.drop_last()) + content(pieces.last()).len()
    }
}

/// The length of a body, counted down by the bytes of some pieces.
pub open spec fn counted_down(len: DecodedLength, pieces: Seq<Bytes>) -> DecodedLength {
    match len.known() {
        Some(n) => DecodedLength((n - byte_count(pieces)) as u64),
        None => len,
    }
}

proof fn lemma_byte_count_prefix(part: Seq<Bytes>, whole: Seq<Bytes>)
    requires
        part.is_prefix_of(whole),
    ensures
        byte_count(part) <= byte_count(whole),
    decreases whole.len(),
{
    if part.len() == whole.len() {
        assert(part =~= whole);
    } else {
        assert(part.is_prefix_of(whole.drop_last()));
        lemma_byte_count_prefix(part, whole.drop_last());
    }
}

// Where a body stands once polls have given some data and trailers.
spec fn stands_at(
    end: Shape,
    given: Seq<Bytes>,
    given_trailers: Seq<HeaderMap>,
    len: DecodedLength,
    sent: Seq<Bytes>,
    arriving: Option<HeaderMap>,
) -> bool {
    &&& end is Chan
    &&& gave_what_arrives(end)
    &&& data_arriving(end->Chan_1) == as_items(sent)
    &&& trailers_arriving(end->Chan_2) == arriving
    &&& arrived(data_polls(end->Chan_1)) == as_items(given)
    &&& given.is_prefix_of(sent)
    &&& data_over(end->Chan_1) ==> given == sent
    &&& given_trailers.len() <= 1
    &&& gave_trailers(trailers_polls(end->Chan_2)) <==> given_trailers.len() == 1
    &&& given_trailers.len() == 1 ==> arriving == Some(given_trailers[0])
    &&& end->Chan_0 == counted_down(len, given)
}

// What follows from the last result of polls that brought a body there.
spec fn last_fits(
    end: Shape,
    r: Polled<Frame, Error>,
    given_trailers: Seq<HeaderMap>,
    arriving: Option<HeaderMap>,
) -> bool {
    &&& !(r is Failed)
    &&& r is End || r is Item && r->Item_0 is Trailers ==> data_over(end->Chan_1)
    &&& r is End ==> given_trailers.len() == 1 || arriving is None
}

spec fn with_data(given: Seq<Bytes>, r: Polled<Frame, Error>) -> Seq<Bytes> {
    match r {
        Polled::Item(Frame::Data(chunk)) => given.push(chunk),
        _ => given,
    }
}

spec fn with_trailers(given: Seq<HeaderMap>, r: Polled<Frame, Error>) -> Seq<HeaderMap> {
    match r {
        Polled::Item(Frame::Trailers(trailers)) => given.push(trailers),
        _ => given,
    }
}

proof fn lemma_stands_on(
    mid: Shape,
    end: Shape,
    r: Polled<Frame, Error>,
    given: Seq<Bytes>,
    given_trailers: Seq<HeaderMap>,
    len: DecodedLength,
    sent: Seq<Bytes>,
    arriving: Option<HeaderMap>,
)
    requires
        stands_at(mid, given, given_trailers, len, sent, arriving),
        chan_step(mid, end, r),
        len.known() is Some ==> byte_count(sent) <= len.known()->0,
    ensures
        stands_at(
            end,
            with_data(given, r),
            with_trailers(given_trailers, r),
            len,
            sent,
            arriving,
        ),
        last_fits(end, r, with_trailers(given_trailers, r), arriving),
{
    let now = with_data(given, r);
    lemma_step(mid, end, r, given, sent);
    let polls = trailers_polls(mid->Chan_2);
    if data_over(end->Chan_1) {
        let next = trailers_polls(end->Chan_2).last();
        assert(trailers_polls(end->Chan_2) == polls.push(next));
        lemma_last_trailers(polls, next, arriving);
    }
    lemma_byte_count_prefix(now, sent);
    lemma_byte_count_prefix(given, sent);
    if r is Item && r->Item_0 is Data {
        assert(now.drop_last() =~= given);
        assert(byte_count(now) == byte_count(given) + content(r->Item_0->Data_0).len());
    }
}

proof fn lemma_run(
    start: Shape,
    run: Seq<(Shape, Polled<Frame, Error>)>,
    len: DecodedLength,
    sent: Seq<Bytes>,
)
    requires
        new_chan(start, len),
        is_run(start, run),
        data_arriving(start->Chan_1) == as_items(sent),
        len.known() is Some ==> byte_count(sent) <= len.known()->0,
    ensures
        stands_at(
            before_poll(start, run, run.len() as int),
            data_given(run),
            trailers_given(run),
            len,
            sent,
            trailers_arriving(start->Chan_2),
        ),
        run.len() > 0 ==> last_fits(
            run.last().0,
            run.last().1,
            trailers_given(run),
            trailers_arriving(start->Chan_2),
        ),
    decreases run.len(),
{
    if run.len() == 0 {
        assert(data_polls(start->Chan_1) =~= Seq::empty());
        assert(arrived(data_polls(start->Chan_1)) =~= as_items(data_given(run)));
        assert(data_given(run).is_prefix_of(sent));
        assert(!gave_trailers(trailers_polls(start->Chan_2)));
    } else {
        let before = run.drop_last();
        let n = run.len() - 1;
        assert forall|i: int| 0 <= i < before.len() implies chan_step(
            before_poll(start, before, i),
            (#[trigger] before[i]).0,
            before[i].1,
        ) by {
            assert(before[i] == run[i]);
            assert(before_poll(start, before, i) == before_poll(start, run, i));
        }
        lemma_run(start, before, len, sent);
        assert(before_poll(start, before, n) == before_poll(start, run, n));
        assert(run[n] == run.last());
        lemma_stands_on(
            before_poll(start, run, n),
            run.last().0,
            run.last().1,
            data_given(before),
            trailers_given(before),
            len,
            sent,
            trailers_arriving(start->Chan_2),
        );
        assert(data_given(run) == with_data(data_given(before), run.last().1));
        assert(trailers_given(run) == with_trailers(trailers_given(before), run.last().1));
    }
}

// What one poll adds to the data that came before it.
proof fn lemma_step(
    mid: Shape,
    end: Shape,
    r: Polled<Frame, Error>,
    given: Seq<Bytes>,
    sent: Seq<Bytes>,
)
    requires
        mid is Chan,
        chan_step(mid, end, r),
        gave_what_arrives(mid),
        data_arriving(mid->Chan_1) == as_items(sent),
        arrived(data_polls(mid->Chan_1)) == as_items(given),
        data_over(mid->Chan_1) ==> given == sent,
    ensures
        ({
            let now = if r is Item && r->Item_0 is Data {
                given.push(r->Item_0->Data_0)
            } else {
                given
            };
            &&& arrived(data_polls(end->Chan_1)) == as_items(now)
            &&& now.is_prefix_of(sent)
            &&& data_over(end->Chan_1) ==> now == sent
            &&& !(r is Failed)
        }),
{
    let polls = data_polls(mid->Chan_1);
    let all = data_polls(end->Chan_1);
    let items = as_items(sent);
    assert forall|i: int| 0 <= i < items.len() implies #[trigger] items[i] == Ok::<Bytes, Error>(
        sent[i],
    ) by {}
    if data_over(mid->Chan_1) {
        assert(given.is_prefix_of(sent));
    } else {
        let polled = all.last();
        assert(all == polls.push(polled));
        assert(all.drop_last() =~= polls);
        let came = arrived(all);
        assert(came.is_prefix_of(items));
        match polled {
            Polled::Item(chunk) => {
                assert(came == as_items(given).push(Ok(chunk)));
                assert(came =~= as_items(given.push(chunk)));
                lemma_items_prefix(given.push(chunk), sent);
            },
            Polled::Failed(err) => {
                assert(came == as_items(given).push(Err(err)));
                assert(came[given.len() as int] == Err::<Bytes, Error>(err));
                assert(items[given.len() as int] == came[given.len() as int]);
                assert(false);
            },
            _ => {
                assert(came == as_items(given));
                lemma_items_prefix(given, sent);
                if polled is End {
                    assert(as_items(given) == as_items(sent));
                    lemma_items_equal(given, sent);
                }
            },
        }
    }
}

proof fn lemma_items_prefix(part: Seq<Bytes>, whole: Seq<Bytes>)
    requires
        as_items(part).is_prefix_of(as_items(whole)),
    ensures
        part.is_prefix_of(whole),
{
    assert forall|i: int| 0 <= i < part.len() implies part[i] == whole[i] by {
        assert(as_items(part)[i] == as_items(whole)[i]);
    }
    assert(part =~= whole.subrange(0, part.len() as int));
}

proof fn lemma_items_equal(a: Seq<Bytes>, b: Seq<Bytes>)
    requires
        as_items(a) == as_items(b),
    ensures
        a == b,
{
    assert(a.len() == as_items(a).len() && b.len() == as_items(b).len());
    assert forall|i: int| 0 <= i < a.len() implies a[i] == b[i] by {
        assert(as_items(a)[i] == Ok::<Bytes, Error>(a[i]));
        assert(as_items(b)[i] == Ok::<Bytes, Error>(b[i]));
    }
    assert(a =~= b);
}

// What the last poll for trailers adds to those before it.
proof fn lemma_last_trailers(
    polls: Seq<Polled<HeaderMap, ()>>,
    next: Polled<HeaderMap, ()>,
    arriving: Option<HeaderMap>,
)
    requires
        gave_arriving_trailers(polls.push(next), arriving),
    ensures
        gave_trailers(polls.push(next)) <==> gave_trailers(polls) || next is Item,
        next is Item ==> !gave_trailers(polls) && arriving == Some(next->Item_0),
        next is End ==> gave_trailers(polls) || arriving is None,
        !(next is Failed),
{
    let more = polls.push(next);
    assert(more[polls.len() as int] == next);
    if gave_trailers(polls) {
        let i = choose|i: int| 0 <= i < polls.len() && #[trigger] polls[i] is Item;
        assert(more[i] is Item);
        assert(!(more[i] is Item && more[polls.len() as int] is Item));
    }
    if gave_trailers(more) {
        let i = choose|i: int| 0 <= i < more.len() && #[trigger] more[i] is Item;
        if i < polls.len() {
            assert(polls[i] is Item);
        }
    }
}

/// What goes into a body's channel comes out of the body. Let nobody but its sender
/// have put data into the channel, pieces of some size in all, and let trailers have
/// been put in or not. Then polls of the body give those pieces in their order, never
/// an error, and trailers or the end only when all pieces have come; the trailers come
/// once, and the end only when they have come, if there are any. What is left of a
/// known length that is not exceeded is that length less the bytes that have come, and
/// an unknown length stays unknown.
pub proof fn law_what_is_sent_comes_out(
    tx: Sender,
    done: Sender,
    start: Shape,
    run: Seq<(Shape, Polled<Frame, Error>)>,
    len: DecodedLength,
    sent: Seq<Bytes>,
    i: int,
)
    requires
        tx.trailers_open(),
        tx.data_goes_to(start),
        new_chan(start, len),
        data_through(done.data_end()) == data_through(tx.data_end()),
        done.sent() == data_through(done.data_end()),
        done.sent() == as_items(sent),
        len.known() is Some ==> byte_count(sent) <= len.known()->0,
        is_run(start, run),
        0 <= i < run.len(),
    ensures
        ({
            let r = run[i].1;
            let trailers = trailers_through(tx.trailers_end()->0);
            let given = data_given(run.take(i));
            &&& given.is_prefix_of(sent)
            &&& !(r is Failed)
            &&& r is Item && r->Item_0 is Data ==> given.push(r->Item_0->Data_0).is_prefix_of(sent)
            &&& r is Item && r->Item_0 is Trailers ==> given == sent && trailers == Some(
                r->Item_0->Trailers_0,
            ) && trailers_given(run.take(i)).len() == 0
            &&& r is End ==> given == sent && trailers_given(run.take(i)) == (match trailers {
                Some(t) => seq![t],
                None => Seq::empty(),
            })
            &&& hint_of(run[i].0) == (match len.known() {
                Some(n) => SizeHint::exact((n - byte_count(data_given(run.take(i + 1)))) as u64),
                None => SizeHint::any(),
            })
        }),
{
    let before = run.take(i);
    let now = run.take(i + 1);
    assert(now.drop_last() =~= before);
    assert(now.last() == run[i]);
    assert forall|j: int| 0 <= j < now.len() implies chan_step(
        before_poll(start, now, j),
        (#[trigger] now[j]).0,
        now[j].1,
    ) by {
        assert(now[j] == run[j]);
        assert(before_poll(start, now, j) == before_poll(start, run, j));
    }
    assert forall|j: int| 0 <= j < before.len() implies chan_step(
        before_poll(start, before, j),
        (#[trigger] before[j]).0,
        before[j].1,
    ) by {
        assert(before[j] == run[j]);
        assert(before_poll(start, before, j) == before_poll(start, run, j));
    }
    lemma_run(start, before, len, sent);
    lemma_run(start, now, len, sent);
    lemma_byte_count_prefix(data_given(now), sent);
    if run[i].1 is End {
        assert(trailers_given(now) == trailers_given(before));
        let trailers = trailers_through(tx.trailers_end()->0);
        assert(trailers_given(before) =~= (match trailers {
            Some(t) => seq![t],
            None => Seq::empty(),
        }));
    }
}

/// The sizes of some pieces of data.
pub open spec fn sizes_of(pieces: Seq<Bytes>) -> Seq<usize> {
    pieces.map_values(|chunk: Bytes| content(chunk).len() as usize)
}

/// The peer of a stream may send as many bytes again as came: whatever the poll of a
/// body, each piece of data that came was released once, with its full size.
pub proof fn law_all_data_is_released(
    before: Shape,
    after: Shape,
    r: Polled<Frame, Error>,
    activity: Activity,
)
    requires
        before is H2,
        frame_step(before, after, r, activity),
        stream_released(before->H2_2) == sizes_of(data_came(before)),
    ensures
        stream_released(after->H2_2) == sizes_of(data_came(after)),
{
    law_reader_gets_what_came(before, after, r, activity);
    assert(sizes_of(data_came(after)) =~= stream_released(after->H2_2));
}

/// A body without a stream has ended exactly when no byte of it is left.
pub proof fn law_ended_body_has_no_bytes_left(shape: Shape)
    requires
        !(shape is H2),
    ensures
        has_ended(shape) <==> hint_of(shape) == SizeHint::exact(0),
{
}

/// What is left of a length after chunks of some sizes.
pub open spec fn read_all(len: DecodedLength, sizes: Seq<nat>) -> DecodedLength
    decreases sizes.len(),
{
    if sizes.len() == 0 {
        len
    } else {
        read_all(read_off(len, sizes[0]), sizes.skip(1))
    }
}

/// The sum of some sizes.
pub open spec fn total(sizes: Seq<nat>) -> nat
    decreases sizes.len(),
{
    if sizes.len() == 0 {
        0
    } else {
        sizes[0] + total(sizes.skip(1))
    }
}

/// A known length counts down by the bytes that come, and reaches zero exactly
/// when all of them have come; an unknown length stays unknown.
pub proof fn law_length_counts_down(len: DecodedLength, sizes: Seq<nat>)
    requires
        len.known() is Some ==> total(sizes) <= len.known()->0,
    ensures
        len.known() is Some ==> read_all(len, sizes) == DecodedLength(
            (len.known()->0 - total(sizes)) as u64,
        ),
        len.known() is Some ==> (read_all(len, sizes) == DecodedLength::spec_zero() <==> total(
            sizes,
        ) == len.known()->0),
        len.known() is None ==> read_all(len, sizes) == len,
    decreases sizes.len(),
{
    if sizes.len() > 0 {
        law_length_counts_down(read_off(len, sizes[0]), sizes.skip(1));
    }
}

/// The data of a stream that fails ends the body without an error exactly when the
/// stream gives the code 0 (NO_ERROR) or 8 (CANCEL). With any other code, or without
/// one, the poll fails: with an error about the body that has the stream's error as its
/// only cause.
pub proof fn law_stream_failures(
    before: Shape,
    after: Shape,
    r: Polled<Frame, Error>,
    activity: Activity,
    err: h2::Error,
    code: u32,
)
    requires
        before is H2,
        !before->H2_1,
        frame_step(before, after, r, activity),
        stream_data_polls(after->H2_2).last() == Polled::<Bytes, h2::Error>::Failed(err),
    ensures
        h2_error_code(err) == Some(code) ==> (r is End <==> code == 0 || code == 8),
        h2_error_code(err) is None ==> !(r is End),
        !(r is End) ==> r is Failed && r->Failed_0.spec_kind() == ErrorKind::Body
            && r->Failed_0.chain() == seq![Link::H2(err)],
        activity == Activity::Idle,
        !after->H2_1,
{
}

/// What a poll for the data of a stream finds otherwise is what the poll of the body
/// gives: it waits, or hands the piece out unchanged; and only at the end of the data
/// are the trailers polled for.
pub proof fn law_stream_data(
    before: Shape,
    after: Shape,
    r: Polled<Frame, Error>,
    activity: Activity,
)
    requires
        before is H2,
        !before->H2_1,
        frame_step(before, after, r, activity),
    ensures
        ({
            let found = stream_data_polls(after->H2_2).last();
            let polls = stream_trailers_polls(before->H2_2);
            &&& stream_data_polls(after->H2_2).len() == stream_data_polls(before->H2_2).len() + 1
            &&& found is Pending ==> r is Pending && activity == Activity::Idle
            &&& found is Item ==> r == Polled::<Frame, Error>::Item(Frame::Data(found->Item_0))
            &&& found is Item ==> activity == Activity::Data(
                content(found->Item_0).len() as usize,
            )
            &&& found is Item ==> stream_released(after->H2_2) == stream_released(
                before->H2_2,
            ).push(content(found->Item_0).len() as usize)
            &&& !(found is Item) ==> stream_released(after->H2_2) == stream_released(before->H2_2)
            &&& after->H2_1 <==> found is End
            &&& stream_trailers_polls(after->H2_2).len() == polls.len() + (if found is End {
                1nat
            } else {
                0nat
            })
        }),
{
}

/// What a poll for the trailers of a stream finds is what the poll of the body gives:
/// the trailers unchanged, the end where there are none, or a failure. A failure of the
/// transport is one of the transport, with its own error; any other is one of HTTP/2,
/// with the stream's error as its only cause.
pub proof fn law_stream_trailers(
    before: Shape,
    after: Shape,
    r: Polled<Frame, Error>,
    activity: Activity,
)
    requires
        before is H2,
        frame_step(before, after, r, activity),
        after->H2_1,
    ensures
        ({
            let found = stream_trailers_polls(after->H2_2).last();
            &&& found is Pending ==> r is Pending && activity == Activity::Idle
            &&& found is End ==> r is End && activity == Activity::NonData
            &&& found is Item ==> r == Polled::<Frame, Error>::Item(
                Frame::Trailers(found->Item_0),
            ) && activity == Activity::NonData
            &&& found is Failed ==> {
                let err = found->Failed_0;
                &&& r is Failed
                &&& activity == Activity::Idle
                &&& h2_error_has_io(err) ==> r->Failed_0.spec_kind() == ErrorKind::Io
                    && r->Failed_0.chain() == seq![Link::Io(h2_error_io(err))]
                &&& !h2_error_has_io(err) ==> r->Failed_0.spec_kind() == ErrorKind::Http2
                    && r->Failed_0.chain() == seq![Link::H2(err)]
            }
        }),
{
}

/// What a poll of a channel finds is what the poll of the body gives: it waits, fails
/// with the very error that was sent, or hands the piece out unchanged; at the end of
/// the data, the trailers, a wait for them, or the end where there are none.
pub proof fn law_channel_gives_what_it_found(
    before: Shape,
    after: Shape,
    r: Polled<Frame, Error>,
    activity: Activity,
)
    requires
        before is Chan,
        frame_step(before, after, r, activity),
    ensures
        ({
            let found = data_polls(after->Chan_1).last();
            let found_trailers = trailers_polls(after->Chan_2).last();
            let polls = trailers_polls(before->Chan_2);
            &&& activity == Activity::Idle
            &&& data_polls(after->Chan_1).len() == data_polls(before->Chan_1).len() + (if data_over(
                before->Chan_1,
            ) {
                0nat
            } else {
                1nat
            })
            &&& trailers_polls(after->Chan_2).len() == polls.len() + (if data_over(
                before->Chan_1,
            ) || found is End {
                1nat
            } else {
                0nat
            })
            &&& !data_over(before->Chan_1) ==> {
                &&& found is Pending ==> r is Pending
                &&& found is Failed ==> r == Polled::<Frame, Error>::Failed(found->Failed_0)
                &&& found is Item ==> r == Polled::<Frame, Error>::Item(
                    Frame::Data(found->Item_0),
                )
            }
            &&& data_over(before->Chan_1) || found is End ==> {
                &&& found_trailers is Pending ==> r is Pending
                &&& found_trailers is Item ==> r == Polled::<Frame, Error>::Item(
                    Frame::Trailers(found_trailers->Item_0),
                )
                &&& found_trailers is End ==> r is End
            }
        }),
{
}

/// Polling a body from a channel tells its sender one number, which makes it ready: 2.
/// Closing the body tells it one number, which ends it: 0. A sender that sees the
/// number 1 waits; and no other number is told.
pub proof fn law_sender_is_told(
    before: Shape,
    after: Shape,
    r: Polled<Frame, Error>,
    activity: Activity,
    body: Incoming,
    closed: Incoming,
    want: usize,
    ready: Polled<(), Error>,
)
    requires
        before is Chan,
        frame_step(before, after, r, activity),
        body.shape() is Chan,
        body.closes(closed),
        want_ready_is(want, ready),
    ensures
        exists|previous: usize|
            after->Chan_3.numbers() == #[trigger] before->Chan_3.numbers().push((2usize, previous)),
        exists|previous: usize|
            closed.shape()->Chan_3.numbers() == #[trigger] body.shape()->Chan_3.numbers().push(
                (0usize, previous),
            ),
        ready is Item <==> want == 2,
        ready is Pending <==> want == 1,
        want != 1 && want != 2 ==> ready is Failed && ready->Failed_0.spec_kind()
            == ErrorKind::ChannelClosed,
        spec_initial_want(true) == 1,
        spec_initial_want(false) == 2,
{
    let a = choose|previous: usize|
        after->Chan_3.numbers() == #[trigger] before->Chan_3.numbers().push(
            (WANT_READY, previous),
        );
    assert(after->Chan_3.numbers() == before->Chan_3.numbers().push((2usize, a)));
    let b = choose|previous: usize|
        closed.shape()->Chan_3.numbers() == #[trigger] body.shape()->Chan_3.numbers().push(
            (watch::CLOSED, previous),
        );
    assert(closed.shape()->Chan_3.numbers() == body.shape()->Chan_3.numbers().push((0usize, b)));
}

/// What is left of a body's length: a known one, below the two numbers that stand for
/// an unknown one, goes down by the bytes that came with the poll; it wraps round where
/// more came than it said. One that is not known stays as it is, and so does any where
/// no data came.
pub proof fn law_length_follows_the_data(
    before: Shape,
    after: Shape,
    r: Polled<Frame, Error>,
    activity: Activity,
)
    requires
        before is Chan || before is H2,
        frame_step(before, after, r, activity),
    ensures
        ({
            let (len, left) = if before is Chan {
                (before->Chan_0.0 as int, after->Chan_0.0 as int)
            } else {
                (before->H2_0.0 as int, after->H2_0.0 as int)
            };
            let came = if r is Item && r->Item_0 is Data {
                content(r->Item_0->Data_0).len() as int
            } else {
                0
            };
            &&& len <= 0xffff_ffff_ffff_fffd && came <= len ==> left == len - came
            &&& len <= 0xffff_ffff_ffff_fffd && len < came && came <= 0xffff_ffff_ffff_ffff ==> left
                == len - came + 0x1_0000_0000_0000_0000
            &&& len > 0xffff_ffff_ffff_fffd ==> left == len
        }),
{
}

/// A body shows how many bytes are left of it exactly where that is known: a number at
/// most 0xffff_ffff_ffff_fffd. A body without bytes shows none, and one from the
/// application shows nothing. A body from a channel is at its end exactly when no byte
/// is left; a body without bytes always is, and one from the application never.
pub proof fn law_bounds_of_a_body(shape: Shape)
    ensures
        ({
            let hint = hint_of(shape);
            &&& shape is Empty ==> hint.lower == 0 && hint.upper == Some(0u64) && has_ended(shape)
            &&& shape is Ffi ==> hint.lower == 0 && hint.upper is None && !has_ended(shape)
            &&& shape is Chan || shape is H2 ==> {
                let len = if shape is Chan {
                    shape->Chan_0.0
                } else {
                    shape->H2_0.0
                };
                &&& len <= 0xffff_ffff_ffff_fffd ==> hint.lower == len && hint.upper == Some(len)
                &&& len > 0xffff_ffff_ffff_fffd ==> hint.lower == 0 && hint.upper is None
            }
            &&& shape is Chan ==> (has_ended(shape) <==> shape->Chan_0.0 == 0)
        }),
{
}

/// The body of a stream that has ended has no bytes where its length is not known; in
/// any other case the length is the one that was said.
pub proof fn law_length_of_a_stream(len: DecodedLength, end_stream: bool)
    ensures
        len.0 > 0xffff_ffff_ffff_fffd && end_stream ==> Incoming::spec_h2_length(
            len,
            end_stream,
        ).0 == 0,
        len.0 <= 0xffff_ffff_ffff_fffd || !end_stream ==> Incoming::spec_h2_length(len, end_stream)
            == len,
{
}

/// An empty body is at its end whenever it is polled, and stays empty; a body from the
/// application stays one, with its address, and is asked once where it can be.
pub proof fn law_other_bodies(
    before: Shape,
    after: Shape,
    r: Polled<Frame, Error>,
    activity: Activity,
)
    requires
        before is Empty || before is Ffi,
        frame_step(before, after, r, activity),
    ensures
        activity == Activity::Idle,
        before is Empty ==> after is Empty && r is End,
        before is Ffi ==> after is Ffi && after->Ffi_0.userdata == before->Ffi_0.userdata,
        before is Ffi && before->Ffi_0.data_func is None ==> r is End,
        before is Ffi && before->Ffi_0.data_func is Some ==> after->Ffi_0.data_func is Some
            && after->Ffi_0.data_func->0.answers().given.len()
            == before->Ffi_0.data_func->0.answers().given.len() + 1
            && after->Ffi_0.data_func->0.answers().given.last().0 == before->Ffi_0.userdata,
{
}

// What is said of the ends of a body's channels is said of the calls that are made on
// them.
proof fn law_calls(
    tx: &mut mpsc::Sender<DataItem>,
    other: mpsc::Sender<DataItem>,
    trailers_tx: oneshot::Sender<HeaderMap>,
    cx: &mut Context<'_>,
    polled: Polled<(), ()>,
    chunk: Bytes,
    err: Error,
    trailers: HeaderMap,
    sent: std::result::Result<(), DataItem>,
    sent_trailers: std::result::Result<(), HeaderMap>,
)
    ensures
        polls_room(tx, cx, polled) ==> call_ensures(data_poll_ready, (tx, cx), polled),
        hands_data(tx, chunk, sent) ==> call_ensures(
            data_try_send,
            (tx, Ok::<Bytes, Error>(chunk)),
            sent,
        ),
        hands_error(tx, err, sent) ==> call_ensures(
            data_try_send,
            (tx, Err::<Bytes, Error>(err)),
            sent,
        ),
        clones_sender(tx, other) ==> call_ensures(data_sender_clone, (tx,), other),
        hands_trailers(trailers_tx, trailers, sent_trailers) ==> call_ensures(
            trailers_send,
            (trailers_tx, trailers),
            sent_trailers,
        ),
{
}

// A body and its sender are the two ends of three new channels.
proof fn law_ends(body: Incoming, tx: Sender, want: usize)
    requires
        body.fed_by(tx, want),
    ensures
        body.kind is Chan,
        call_ensures(data_channel, (), (tx.data_tx, body.kind->data_rx)),
        tx.trailers_tx is Some,
        call_ensures(trailers_channel, (), (tx.trailers_tx->0, body.kind->trailers_rx)),
        body.kind->want_tx.starts_from(want),
        body.kind->want_tx.reaches(tx.want_rx),
{
}

/// What is put in at one end of a new channel arrives at the other, and the ends that a
/// sender is made of are the ones that its contracts speak of.
pub proof fn law_new_channels(body: Incoming, tx: Sender, want: usize)
    requires
        body.fed_by(tx, want),
    ensures
        body.shape() is Chan,
        tx.trailers_open(),
        data_through(tx.data_end()) == data_arriving(body.shape()->Chan_1),
        trailers_through(tx.trailers_end()->0) == trailers_arriving(body.shape()->Chan_2),
        body.shape()->Chan_3.starts_from(want),
        body.shape()->Chan_3.reaches(tx.want_end()),
{
}

/// A sender is shown as closed exactly when it sees the number 0.
pub proof fn law_senders_in_words(want: usize)
    ensures
        want == 0 ==> Sender::spec_state_text(want) == "Sender(Closed)"@,
        want != 0 ==> Sender::spec_state_text(want) == "Sender(Open)"@,
{
}

/// The application's side of a body is there exactly where the application provides it.
pub proof fn law_bodies_of_the_application(body: Incoming)
    ensures
        body.user_body() is Some <==> body.shape() is Ffi,
        body.user_body() is Some ==> body.user_body()->0 == body.shape()->Ffi_0,
{
}

/// The same, of what was found on its own: of all codes, 0 and 8 alone end a body
/// quietly; any other failure of a stream's data is a failure of the body, with the
/// stream's error as its only cause.
pub proof fn law_quiet_codes(err: h2::Error, code: u32, r: Option<Polled<Frame, Error>>)
    requires
        h2_data_frame_is(Polled::<Bytes, h2::Error>::Failed(err), r),
    ensures
        r is Some,
        h2_error_code(err) == Some(code) ==> (r->0 is End <==> code == 0 || code == 8),
        h2_error_code(err) is None ==> r->0 is Failed,
        !(r->0 is End) ==> r->0 is Failed && r->0->Failed_0.spec_kind() == ErrorKind::Body
            && r->0->Failed_0.chain().len() == 1 && r->0->Failed_0.chain()[0] == Link::H2(err),
{
}

/// What was found on its own is what is given: a wait, a piece, a failure or trailers,
/// each unchanged; and at the end of the data nothing yet.
pub proof fn law_what_is_found_is_given(
    chunk: Bytes,
    trailers: HeaderMap,
    err: Error,
    of_stream: Option<Polled<Frame, Error>>,
    waiting: Option<Polled<Frame, Error>>,
    ended: Option<Polled<Frame, Error>>,
)
    requires
        h2_data_frame_is(Polled::<Bytes, h2::Error>::Item(chunk), of_stream),
        h2_data_frame_is(Polled::<Bytes, h2::Error>::Pending, waiting),
        h2_data_frame_is(Polled::<Bytes, h2::Error>::End, ended),
    ensures
        of_stream == Some(Polled::<Frame, Error>::Item(Frame::Data(chunk))),
        waiting == Some(Polled::<Frame, Error>::Pending),
        ended is None,
        chan_data_frame(Polled::Item(chunk)) == Some(
            Polled::<Frame, Error>::Item(Frame::Data(chunk)),
        ),
        chan_data_frame(Polled::Failed(err)) == Some(Polled::<Frame, Error>::Failed(err)),
        chan_data_frame(Polled::Pending) == Some(Polled::<Frame, Error>::Pending),
        chan_data_frame(Polled::End) is None,
        chan_trailers_frame(Polled::Item(trailers)) == Polled::<Frame, Error>::Item(
            Frame::Trailers(trailers),
        ),
        chan_trailers_frame(Polled::Pending) is Pending,
        chan_trailers_frame(Polled::End) is End,
{
}

/// What is left of a length, of which bytes were read: of a known one so many less,
/// round the end of 64 bits where more came than it said; an unknown one stays.
pub proof fn law_reading_off(len: DecodedLength, chunk: Bytes, n: nat)
    requires
        n <= 0xffff_ffff_ffff_ffff,
    ensures
        len.0 <= 0xffff_ffff_ffff_fffd ==> (read_off(len, n).0 + n) % 0x1_0000_0000_0000_0000
            == len.0,
        len.0 > 0xffff_ffff_ffff_fffd ==> read_off(len, n) == len,
        rest_of(len, Polled::<Bytes, Error>::Item(chunk)) == read_off(len, content(chunk).len()),
        rest_of(len, Polled::<Bytes, Error>::Pending) == len,
        rest_of(len, Polled::<Bytes, Error>::End) == len,
{
}

} // verus!
