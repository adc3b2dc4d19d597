//! HTTP/2 connections of a client.

use std::sync::Arc;
use std::task::Context;
use std::time::Duration;

use http::{Request, Response};
use vstd::prelude::*;

use crate::body::incoming::Incoming;
use crate::client::conn::http1::{
    promised, promised_is, promised_or_back, promised_or_back_is,
};
use crate::client::dispatch;
use crate::client::dispatch::{Promise, RetryPromise, TrySendError};
use crate::common::task::Polled;
use crate::common::time::Time;
use crate::error::{Error, Kind, Result};
use crate::outside::std_time::duration_nanos;

verus! {

/// The window size that HTTP/2 itself starts from.
pub const SPEC_WINDOW_SIZE: u32 = 65535;

/// Sends requests on an HTTP/2 connection.
#[verifier::reject_recursive_types(B)]
pub struct SendRequest<B> {
    dispatch: dispatch::UnboundedSender<Request<B>, Response<Incoming>>,
}

/// Whether this is how requests can be sent, given whether the connection is closed.
pub open spec fn ready_unless_closed_is(closed: bool, r: Polled<(), Error>) -> bool {
    if closed {
        r is Failed && r->Failed_0.is_bare(Kind::ChannelClosed)
    } else {
        r is Item
    }
}

/// Whether requests can be sent, given whether the connection is closed.
pub fn ready_unless_closed(closed: bool) -> (r: Polled<(), Error>)
    ensures
        ready_unless_closed_is(closed, r),
{
    if closed {
        Polled::Failed(Error::new_closed())
    } else {
        Polled::Item(())
    }
}

impl<B> SendRequest<B> {
    /// The sender of the connection's requests.
    pub closed spec fn sender(&self) -> dispatch::UnboundedSender<Request<B>, Response<Incoming>> {
        self.dispatch
    }

    /// Whether requests can be sent; they can until the connection is closed.
    pub fn poll_ready(&mut self, _cx: &mut Context<'_>) -> (r: Polled<(), Error>)
        ensures
            exists|closed: bool| #[trigger]
                old(self).sender().sees_cancel(closed) && ready_unless_closed_is(closed, r),
            *final(self) == *old(self),
    {
        let closed: bool = self.is_closed();
        ready_unless_closed(closed)
    }

    /// Whether requests can be sent.
    pub fn is_ready(&self) -> (r: bool)
        ensures
            self.sender().sees_cancel(!r),
    {
        self.dispatch.is_ready()
    }

    /// Whether the connection is closed.
    pub fn is_closed(&self) -> (r: bool)
        ensures
            self.sender().sees_cancel(r),
    {
        self.dispatch.is_closed()
    }

    /// Sends a request, whose response is then waited for. A connection that is
    /// closed cancels it.
    pub fn send_request(&mut self, req: Request<B>) -> (r: Result<Promise<Response<Incoming>>>)
        ensures
            exists|sent: std::result::Result<Promise<Response<Incoming>>, Request<B>>| #[trigger]
                old(self).sender().sends(req, sent) && promised_is(sent, r),
            *final(self) == *old(self),
    {
        let sent = self.dispatch.send(req);
        assert(old(self).sender().sends(req, sent));
        promised(sent)
    }

    /// Sends a request, whose response is then waited for. A connection that is
    /// closed cancels it and gives it back.
    pub fn try_send_request(&mut self, req: Request<B>) -> (r: std::result::Result<
        RetryPromise<Request<B>, Response<Incoming>>,
        TrySendError<Request<B>>,
    >)
        ensures
            exists|
                sent: std::result::Result<
                    RetryPromise<Request<B>, Response<Incoming>>,
                    Request<B>,
                >,
            | #[trigger]
                old(self).sender().sends_with_retry(req, sent) && promised_or_back_is(sent, r),
            r is Err ==> r->Err_0.spec_message() == Some(req),
            *final(self) == *old(self),
    {
        let sent = self.dispatch.try_send(req);
        assert(old(self).sender().sends_with_retry(req, sent));
        promised_or_back(sent)
    }
}

impl<B> Clone for SendRequest<B> {
    fn clone(&self) -> (r: SendRequest<B>)
        ensures
            self.sender().twin(r.sender()),
    {
        SendRequest { dispatch: self.dispatch.clone() }
    }
}

/// The options of a connection. A size or number that is not said is left to the
/// protocol layer.
#[derive(Debug, Clone, Copy)]
pub struct Config {
    /// Whether the flow-control windows adapt themselves.
    pub adaptive_window: bool,
    /// The first window of the connection.
    pub initial_conn_window_size: Option<u32>,
    /// The first window of each stream.
    pub initial_stream_window_size: Option<u32>,
    /// The first limit on the streams that are sent.
    pub initial_max_send_streams: Option<usize>,
    /// The largest frame.
    pub max_frame_size: Option<u32>,
    /// The largest list of headers that is received.
    pub max_header_list_size: u32,
    /// The size of the table that headers are compressed with.
    pub header_table_size: Option<u32>,
    /// The largest number of streams that the peer can open.
    pub max_concurrent_streams: Option<u32>,
    /// How often the peer is pinged; where it is not said, never.
    pub keep_alive_interval: Option<Duration>,
    /// How long an answer to a ping is waited for.
    pub keep_alive_timeout: Duration,
    /// Whether the peer is pinged while no stream is open.
    pub keep_alive_while_idle: bool,
    /// The largest number of streams that were reset here.
    pub max_concurrent_reset_streams: Option<usize>,
    /// The largest write buffer of each stream.
    pub max_send_buffer_size: usize,
    /// The largest number of streams that were reset before they were accepted.
    pub max_pending_accept_reset_streams: Option<usize>,
}

impl Config {
    /// The options that nobody has set.
    pub open spec fn is_unset(&self) -> bool {
        &&& !self.adaptive_window
        &&& self.initial_conn_window_size is None
        &&& self.initial_stream_window_size is None
        &&& self.initial_max_send_streams is None
        &&& self.max_frame_size == Some(16384u32)
        &&& self.max_header_list_size == 16384
        &&& self.header_table_size is None
        &&& self.max_concurrent_streams is None
        &&& self.keep_alive_interval is None
        &&& duration_nanos(self.keep_alive_timeout) == 20_000_000_000
        &&& !self.keep_alive_while_idle
        &&& self.max_concurrent_reset_streams is None
        &&& self.max_send_buffer_size == 1048576
        &&& self.max_pending_accept_reset_streams is None
    }

    /// Where the windows adapt themselves, both start from the size of HTTP/2
    /// itself; and a write buffer is no larger than a 32-bit number.
    pub open spec fn consistent(&self) -> bool {
        &&& self.adaptive_window ==> self.initial_conn_window_size == Some(SPEC_WINDOW_SIZE)
            && self.initial_stream_window_size == Some(SPEC_WINDOW_SIZE)
        &&& self.max_send_buffer_size <= u32::MAX
    }
}

/// The options with a first window of each stream, if one is given; the windows
/// then do not adapt themselves.
pub open spec fn with_stream_window(c: Config, sz: Option<u32>) -> Config {
    if sz is Some {
        Config { adaptive_window: false, initial_stream_window_size: sz, ..c }
    } else {
        c
    }
}

/// The options with a first window of the connection, if one is given; the windows
/// then do not adapt themselves.
pub open spec fn with_conn_window(c: Config, sz: Option<u32>) -> Config {
    if sz is Some {
        Config { adaptive_window: false, initial_conn_window_size: sz, ..c }
    } else {
        c
    }
}

/// The options with windows that adapt themselves, or not. Those that do start from
/// the size of HTTP/2 itself.
pub open spec fn with_adaptive_window(c: Config, enabled: bool) -> Config {
    if enabled {
        Config {
            adaptive_window: true,
            initial_conn_window_size: Some(SPEC_WINDOW_SIZE),
            initial_stream_window_size: Some(SPEC_WINDOW_SIZE),
            ..c
        }
    } else {
        Config { adaptive_window: false, ..c }
    }
}

/// Windows that adapt themselves always start from the size of HTTP/2 itself:
/// setting a window turns the adapting off, and turning it on takes both windows
/// back.
pub proof fn law_adaptive_windows_start_from_spec_size(c: Config, sz: Option<u32>, enabled: bool)
    requires
        c.consistent(),
    ensures
        with_stream_window(c, sz).consistent(),
        with_conn_window(c, sz).consistent(),
        with_adaptive_window(c, enabled).consistent(),
        sz is Some ==> !with_stream_window(c, sz).adaptive_window,
        sz is Some ==> !with_conn_window(c, sz).adaptive_window,
        sz is None ==> with_stream_window(c, sz) == c && with_conn_window(c, sz) == c,
{
}

impl Default for Config {
    fn default() -> (r: Config)
        ensures
            r.is_unset(),
            r.consistent(),
    {
        Config {
            adaptive_window: false,
            initial_conn_window_size: None,
            initial_stream_window_size: None,
            initial_max_send_streams: None,
            max_frame_size: Some(16384),
            max_header_list_size: 16384,
            header_table_size: None,
            max_concurrent_streams: None,
            keep_alive_interval: None,
            keep_alive_timeout: Duration::from_secs(20),
            keep_alive_while_idle: false,
            max_concurrent_reset_streams: None,
            max_send_buffer_size: 1048576,
            max_pending_accept_reset_streams: None,
        }
    }
}

/// What the task of a new connection starts from.
#[verifier::reject_recursive_types(B)]
pub struct Setup<B, Ex, M> {
    /// The requests that it serves.
    pub requests: dispatch::Receiver<Request<B>, Response<Incoming>>,
    /// Its options.
    pub config: Config,
    /// Runs its tasks.
    pub executor: Ex,
    /// Its timer.
    pub timer: Time<M>,
}

impl<B, Ex, M> Setup<B, Ex, M> {
    /// A sender sends to this connection: it comes of one that belongs to the
    /// connection's receiver.
    pub open spec fn served_by(
        &self,
        sender: dispatch::UnboundedSender<Request<B>, Response<Incoming>>,
    ) -> bool {
        exists|tx: dispatch::Sender<Request<B>, Response<Incoming>>| #[trigger]
            tx.feeds(self.requests) && tx.unbinds(sender)
    }
}

/// Sets the options of a connection up.
#[derive(Debug)]
pub struct Builder<Ex, M> {
    /// Runs the tasks of the connection.
    pub executor: Ex,
    /// Its timer.
    pub timer: Time<M>,
    /// Its options.
    pub h2_builder: Config,
}

impl<Ex, M> Builder<Ex, M> {
    /// The options that are set so far.
    pub open spec fn config(&self) -> Config {
        self.h2_builder
    }

    /// The builder differs from another only in its options.
    pub open spec fn same_but_config(&self, other: &Builder<Ex, M>) -> bool {
        self.executor == other.executor && self.timer == other.timer
    }

    /// Options that nobody has set, and no timer.
    pub fn new(executor: Ex) -> (r: Builder<Ex, M>)
        ensures
            r.executor == executor,
            r.timer is Empty,
            r.config().is_unset(),
            r.config().consistent(),
    {
        Builder { executor, timer: Time::Empty, h2_builder: Config::default() }
    }

    /// The timer of the connection.
    pub fn timer(&mut self, timer: M) -> (r: &mut Builder<Ex, M>)
        ensures
            r.timer is Timer && *r.timer->Timer_0 == timer,
            r.executor == old(self).executor,
            r.config() == old(self).config(),
            *final(self) == *final(r),
    {
        self.timer = Time::Timer(Arc::new(timer));
        self
    }

    /// The first window of each stream. The windows then do not adapt themselves.
    pub fn initial_stream_window_size(&mut self, sz: Option<u32>) -> (r: &mut Builder<Ex, M>)
        ensures
            r.config() == with_stream_window(old(self).config(), sz),
            r.same_but_config(old(self)),
            *final(self) == *final(r),
    {
        if let Some(sz) = sz {
            self.h2_builder.adaptive_window = false;
            self.h2_builder.initial_stream_window_size = Some(sz);
        }
        self
    }

    /// The first window of the connection. The windows then do not adapt
    /// themselves.
    pub fn initial_connection_window_size(&mut self, sz: Option<u32>) -> (r: &mut Builder<Ex, M>)
        ensures
            r.config() == with_conn_window(old(self).config(), sz),
            r.same_but_config(old(self)),
            *final(self) == *final(r),
    {
        if let Some(sz) = sz {
            self.h2_builder.adaptive_window = false;
            self.h2_builder.initial_conn_window_size = Some(sz);
        }
        self
    }

    /// The first limit on the streams that are sent.
    pub fn initial_max_send_streams(&mut self, initial: Option<usize>) -> (r: &mut Builder<Ex, M>)
        ensures
            initial is None ==> r.config() == old(self).config(),
            initial is Some ==> r.config() == (Config {
                initial_max_send_streams: initial,
                ..old(self).config()
            }),
            r.same_but_config(old(self)),
            *final(self) == *final(r),
    {
        if let Some(initial) = initial {
            self.h2_builder.initial_max_send_streams = Some(initial);
        }
        self
    }

    /// Whether the windows adapt themselves. They then start from the size of
    /// HTTP/2 itself, whatever was set before.
    pub fn adaptive_window(&mut self, enabled: bool) -> (r: &mut Builder<Ex, M>)
        ensures
            r.config() == with_adaptive_window(old(self).config(), enabled),
            r.same_but_config(old(self)),
            *final(self) == *final(r),
    {
        self.h2_builder.adaptive_window = enabled;
        if enabled {
            self.h2_builder.initial_conn_window_size = Some(SPEC_WINDOW_SIZE);
            self.h2_builder.initial_stream_window_size = Some(SPEC_WINDOW_SIZE);
        }
        self
    }

    /// The largest frame.
    pub fn max_frame_size(&mut self, sz: Option<u32>) -> (r: &mut Builder<Ex, M>)
        ensures
            r.config() == (Config { max_frame_size: sz, ..old(self).config() }),
            r.same_but_config(old(self)),
            *final(self) == *final(r),
    {
        self.h2_builder.max_frame_size = sz;
        self
    }

    /// The largest list of headers that is received.
    pub fn max_header_list_size(&mut self, max: u32) -> (r: &mut Builder<Ex, M>)
        ensures
            r.config() == (Config { max_header_list_size: max, ..old(self).config() }),
            r.same_but_config(old(self)),
            *final(self) == *final(r),
    {
        self.h2_builder.max_header_list_size = max;
        self
    }

    /// The size of the table that headers are compressed with.
    pub fn header_table_size(&mut self, size: Option<u32>) -> (r: &mut Builder<Ex, M>)
        ensures
            r.config() == (Config { header_table_size: size, ..old(self).config() }),
            r.same_but_config(old(self)),
            *final(self) == *final(r),
    {
        self.h2_builder.header_table_size = size;
        self
    }

    /// The largest number of streams that the peer can open.
    pub fn max_concurrent_streams(&mut self, max: Option<u32>) -> (r: &mut Builder<Ex, M>)
        ensures
            r.config() == (Config { max_concurrent_streams: max, ..old(self).config() }),
            r.same_but_config(old(self)),
            *final(self) == *final(r),
    {
        self.h2_builder.max_concurrent_streams = max;
        self
    }

    /// How often the peer is pinged.
    pub fn keep_alive_interval(&mut self, interval: Option<Duration>) -> (r: &mut Builder<Ex, M>)
        ensures
            r.config() == (Config { keep_alive_interval: interval, ..old(self).config() }),
            r.same_but_config(old(self)),
            *final(self) == *final(r),
    {
        self.h2_builder.keep_alive_interval = interval;
        self
    }

    /// How long an answer to a ping is waited for.
    pub fn keep_alive_timeout(&mut self, timeout: Duration) -> (r: &mut Builder<Ex, M>)
        ensures
            r.config() == (Config { keep_alive_timeout: timeout, ..old(self).config() }),
            r.same_but_config(old(self)),
            *final(self) == *final(r),
    {
        self.h2_builder.keep_alive_timeout = timeout;
        self
    }

    /// Whether the peer is pinged while no stream is open.
    pub fn keep_alive_while_idle(&mut self, enabled: bool) -> (r: &mut Builder<Ex, M>)
        ensures
            r.config() == (Config { keep_alive_while_idle: enabled, ..old(self).config() }),
            r.same_but_config(old(self)),
            *final(self) == *final(r),
    {
        self.h2_builder.keep_alive_while_idle = enabled;
        self
    }

    /// The largest number of streams that were reset here.
    pub fn max_concurrent_reset_streams(&mut self, max: usize) -> (r: &mut Builder<Ex, M>)
        ensures
            r.config() == (Config {
                max_concurrent_reset_streams: Some(max),
                ..old(self).config()
            }),
            r.same_but_config(old(self)),
            *final(self) == *final(r),
    {
        self.h2_builder.max_concurrent_reset_streams = Some(max);
        self
    }

    /// The largest write buffer of each stream.
    pub fn max_send_buf_size(&mut self, max: usize) -> (r: &mut Builder<Ex, M>)
        requires
            max <= u32::MAX,
        ensures
            r.config() == (Config { max_send_buffer_size: max, ..old(self).config() }),
            r.same_but_config(old(self)),
            *final(self) == *final(r),
    {
        self.h2_builder.max_send_buffer_size = max;
        self
    }

    /// The largest number of streams that were reset before they were accepted.
    pub fn max_pending_accept_reset_streams(&mut self, max: Option<usize>) -> (r:
        &mut Builder<Ex, M>)
        ensures
            r.config() == (Config {
                max_pending_accept_reset_streams: max,
                ..old(self).config()
            }),
            r.same_but_config(old(self)),
            *final(self) == *final(r),
    {
        self.h2_builder.max_pending_accept_reset_streams = max;
        self
    }
}

impl<Ex: Clone, M> Builder<Ex, M> {
    /// A new connection: the side that sends requests, and what its task starts
    /// from.
    pub fn handshake<B>(&self) -> (r: (SendRequest<B>, Setup<B, Ex, M>))
        ensures
            r.1.served_by(r.0.sender()),
            r.1.requests.wf(),
            !r.1.requests.is_closed(),
            r.1.config == self.config(),
            cloned(self.executor, r.1.executor),
            r.1.timer == self.timer,
    {
        let (tx, rx) = dispatch::channel();
        let ghost bound = tx;
        let dispatch = tx.unbound();
        assert(bound.feeds(rx) && bound.unbinds(dispatch));
        let setup = Setup {
            requests: rx,
            config: self.h2_builder,
            executor: self.executor.clone(),
            timer: self.timer.clone(),
        };
        assert(bound.feeds(setup.requests));
        (SendRequest { dispatch }, setup)
    }
}

impl<Ex: Clone, M> Clone for Builder<Ex, M> {
    fn clone(&self) -> (r: Builder<Ex, M>)
        ensures
            cloned(self.executor, r.executor),
            r.timer == self.timer,
            r.config() == self.config(),
    {
        Builder {
            executor: self.executor.clone(),
            timer: self.timer.clone(),
            h2_builder: self.h2_builder,
        }
    }
}

/// A new connection with options that nobody has set, and without a timer.
pub fn handshake<Ex: Clone, M, B>(executor: Ex) -> (r: (SendRequest<B>, Setup<B, Ex, M>))
    ensures
        r.1.served_by(r.0.sender()),
        r.1.requests.wf(),
        !r.1.requests.is_closed(),
        r.1.config.is_unset(),
        cloned(executor, r.1.executor),
        r.1.timer is Empty,
{
    let builder: Builder<Ex, M> = Builder::new(executor);
    builder.handshake()
}

/// Setting one window sets it to that size, turns the adapting off, and leaves all else,
/// the other window too, as it was.
pub proof fn law_windows_are_set_alone(c: Config, n: u32)
    ensures
        with_stream_window(c, Some(n)).initial_stream_window_size == Some(n),
        with_stream_window(c, Some(n)).initial_conn_window_size == c.initial_conn_window_size,
        !with_stream_window(c, Some(n)).adaptive_window,
        with_conn_window(c, Some(n)).initial_conn_window_size == Some(n),
        with_conn_window(c, Some(n)).initial_stream_window_size == c.initial_stream_window_size,
        !with_conn_window(c, Some(n)).adaptive_window,
        with_stream_window(c, Some(n)) == (Config {
            adaptive_window: false,
            initial_stream_window_size: Some(n),
            ..c
        }),
        with_conn_window(c, Some(n)) == (Config {
            adaptive_window: false,
            initial_conn_window_size: Some(n),
            ..c
        }),
        with_stream_window(c, None) == c,
        with_conn_window(c, None) == c,
{
}

/// Windows that adapt themselves both start from 65535; to turn the adapting off changes
/// no window, and neither changes anything else.
pub proof fn law_adapting_windows(c: Config)
    ensures
        with_adaptive_window(c, true) == (Config {
            adaptive_window: true,
            initial_conn_window_size: Some(65535u32),
            initial_stream_window_size: Some(65535u32),
            ..c
        }),
        with_adaptive_window(c, false) == (Config { adaptive_window: false, ..c }),
{
}

/// The options that nobody has set: frames and lists of headers of 16384 bytes, a write
/// buffer of 1048576, 20 seconds for the answer to a ping, no pings, and the rest left
/// to the protocol.
pub proof fn law_unset_config(c: Config)
    requires
        c.is_unset(),
    ensures
        c.max_frame_size == Some(16384u32),
        c.max_header_list_size == 16384,
        c.max_send_buffer_size == 1048576,
        duration_nanos(c.keep_alive_timeout) == 20 * 1_000_000_000,
        c.keep_alive_interval is None,
        !c.keep_alive_while_idle,
        !c.adaptive_window,
        c.initial_conn_window_size is None,
        c.initial_stream_window_size is None,
        c.initial_max_send_streams is None,
        c.header_table_size is None,
        c.max_concurrent_streams is None,
        c.max_concurrent_reset_streams is None,
        c.max_pending_accept_reset_streams is None,
{
}

/// Requests can be sent exactly as long as the connection is not closed; then the error
/// says so.
pub proof fn law_ready_until_closed(closed: bool, r: Polled<(), Error>)
    requires
        ready_unless_closed_is(closed, r),
    ensures
        r is Item <==> !closed,
        closed ==> r is Failed && r->Failed_0.spec_kind() == Kind::ChannelClosed,
{
}

} // verus!
