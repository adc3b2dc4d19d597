//! HTTP/1 connections of a client.

use std::task::Context;

use bytes::Bytes;
use http::{Request, Response};
use httparse::ParserConfig;
use vstd::prelude::*;
use vstd::string::StringExecFns;
use want::Giver;

use crate::body::incoming::Incoming;
use crate::client::dispatch;
use crate::client::dispatch::{polls_want, Promise, RetryPromise, TrySendError};
use crate::common::task::{ready_or_closed_is, Polled};
use crate::error::{Cause, Error, Kind, Result};
use crate::outside::httparse_crate::{
    leniency_of, parser_allow_multiline, parser_allow_spaces, parser_config_clone,
    parser_config_new, parser_ignore_invalid, ParserLeniency,
};

verus! {

/// The least that the largest size of a buffer can be set to.
pub const MINIMUM_MAX_BUFFER_SIZE: usize = 8192;

/// Sends requests on an HTTP/1 connection.
#[verifier::reject_recursive_types(B)]
pub struct SendRequest<B> {
    dispatch: dispatch::Sender<Request<B>, Response<Incoming>>,
}

/// The error of a request that found its connection not ready.
fn not_ready() -> (err: Error)
    ensures
        err.says(Kind::Canceled, "connection was not ready"@),
{
    let text: String = String::from_str("connection was not ready");
    Error::new_canceled().with(Cause::message(text))
}

/// Whether this is the promise of a response, or the error of a request that found
/// its connection not ready.
pub open spec fn promised_is<P, Q>(sent: std::result::Result<P, Q>, r: Result<P>) -> bool {
    match sent {
        Ok(promise) => r == Ok::<P, Error>(promise),
        Err(_) => r is Err && r->Err_0.says(Kind::Canceled, "connection was not ready"@),
    }
}

/// Whether this is the promise of a response, or the error of a request that found
/// its connection not ready, with the request.
pub open spec fn promised_or_back_is<P, Q>(
    sent: std::result::Result<P, Q>,
    r: std::result::Result<P, TrySendError<Q>>,
) -> bool {
    match sent {
        Ok(promise) => r == Ok::<P, TrySendError<Q>>(promise),
        Err(req) => {
            &&& r is Err
            &&& r->Err_0.spec_error().says(Kind::Canceled, "connection was not ready"@)
            &&& r->Err_0.spec_message() == Some(req)
        },
    }
}

/// The promise of a response, or the error of a request that found its connection
/// not ready.
pub fn promised<P, Q>(sent: std::result::Result<P, Q>) -> (r: Result<P>)
    ensures
        promised_is(sent, r),
{
    match sent {
        Ok(promise) => Ok(promise),
        Err(_) => Err(not_ready()),
    }
}

/// The promise of a response, or the error of a request that found its connection
/// not ready, with the request.
pub fn promised_or_back<P, Q>(sent: std::result::Result<P, Q>) -> (r: std::result::Result<
    P,
    TrySendError<Q>,
>)
    ensures
        promised_or_back_is(sent, r),
{
    match sent {
        Ok(promise) => Ok(promise),
        Err(req) => Err(TrySendError::new(not_ready(), Some(req))),
    }
}

impl<B> SendRequest<B> {
    /// The sender of the connection's requests.
    pub closed spec fn sender(&self) -> dispatch::Sender<Request<B>, Response<Incoming>> {
        self.dispatch
    }

    /// Whether a request was sent before.
    pub open spec fn has_sent(&self) -> bool {
        self.sender().has_sent()
    }

    /// Waits until the connection is ready for a request.
    pub fn poll_ready(&mut self, cx: &mut Context<'_>) -> (r: Polled<(), Error>)
        ensures
            exists|giver: &mut Giver, c: &mut Context<'_>, polled: Polled<(), ()>|
                *giver == old(self).sender().giver_end() && *final(giver)
                    == final(self).sender().giver_end() && *c == *old(cx) && *final(c) == *final(cx)
                    && #[trigger] polls_want(giver, c, polled) && ready_or_closed_is(polled, r),
            final(self).sender().queue_end() == old(self).sender().queue_end(),
            final(self).sender().gave() == old(self).sender().gave(),
            final(self).has_sent() == old(self).has_sent(),
            !(r is End),
    {
        self.dispatch.poll_ready(cx)
    }

    /// Whether the connection is ready for a request.
    pub fn is_ready(&self) -> (r: bool)
        ensures
            self.sender().sees_want(r),
    {
        self.dispatch.is_ready()
    }

    /// Whether the connection is closed.
    pub fn is_closed(&self) -> (r: bool)
        ensures
            self.sender().sees_cancel(r),
    {
        self.dispatch.is_closed()
    }

    /// Sends a request, whose response is then waited for. A connection that is
    /// not ready cancels it.
    pub fn send_request(&mut self, req: Request<B>) -> (r: Result<Promise<Response<Incoming>>>)
        ensures
            exists|sent: std::result::Result<Promise<Response<Incoming>>, Request<B>>| #[trigger]
                old(self).sender().sends(final(self).sender(), req, sent) && promised_is(sent, r),
    {
        let sent = self.dispatch.send(req);
        assert(old(self).sender().sends(self.sender(), req, sent));
        promised(sent)
    }

    /// Sends a request, whose response is then waited for. A connection that is
    /// not ready cancels it and gives it back.
    pub fn try_send_request(&mut self, req: Request<B>) -> (r: std::result::Result<
        RetryPromise<Request<B>, Response<Incoming>>,
        TrySendError<Request<B>>,
    >)
        ensures
            exists|
                sent: std::result::Result<
                    RetryPromise<Request<B>, Response<Incoming>>,
                    Request<B>,
                >,
            | #[trigger]
                old(self).sender().sends_with_retry(final(self).sender(), req, sent)
                    && promised_or_back_is(sent, r),
            r is Err ==> r->Err_0.spec_message() == Some(req),
    {
        let sent = self.dispatch.try_send(req);
        assert(old(self).sender().sends_with_retry(self.sender(), req, sent));
        promised_or_back(sent)
    }
}

/// What is left of a connection: the transport, and what was read from it but
/// not used.
#[derive(Debug)]
pub struct Parts<T> {
    pub io: T,
    pub read_buf: Bytes,
}

/// How the task of a connection came to its end.
#[derive(Debug, Clone, Copy, PartialEq, Eq, Structural)]
pub enum Dispatched {
    /// All is done.
    Shutdown,
    /// The transport goes over to another protocol.
    Upgrade,
}

/// What a connection does when its task has come to its end.
#[derive(Debug, Clone, Copy, PartialEq, Eq, Structural)]
pub enum Finish {
    /// Nothing more.
    Closed,
    /// Tells the one who waits for the upgrade to take the transport by hand.
    ManualUpgrade,
    /// Hands the transport, and what was read from it, over to the one who waits
    /// for the upgrade.
    HandOver,
}

/// What a connection does when its task has come to its end, given whether it
/// serves upgrades.
pub open spec fn spec_finish(end: Result<Dispatched>, upgrades: bool) -> Result<Finish> {
    match end {
        Ok(Dispatched::Shutdown) => Ok(Finish::Closed),
        Ok(Dispatched::Upgrade) => if upgrades {
            Ok(Finish::HandOver)
        } else {
            Ok(Finish::ManualUpgrade)
        },
        Err(err) => Err(err),
    }
}

/// What a connection does when its task has come to its end, given whether it
/// serves upgrades.
pub fn finish(end: Result<Dispatched>, upgrades: bool) -> (r: Result<Finish>)
    ensures
        r == spec_finish(end, upgrades),
{
    match end {
        Ok(Dispatched::Shutdown) => Ok(Finish::Closed),
        Ok(Dispatched::Upgrade) => {
            if upgrades {
                Ok(Finish::HandOver)
            } else {
                Ok(Finish::ManualUpgrade)
            }
        },
        Err(err) => Err(err),
    }
}

/// The options of a connection.
pub struct Options {
    /// Whether responses of HTTP/0.9 are taken.
    pub h09_responses: bool,
    /// What the parser lets pass.
    pub parser: ParserLeniency,
    /// Whether vectored writes are used; where it is not said, the connection finds
    /// out itself.
    pub writev: Option<bool>,
    /// Whether header names are written in title case.
    pub title_case_headers: bool,
    /// Whether the case of header names is kept.
    pub preserve_header_case: bool,
    /// The largest number of headers.
    pub max_headers: Option<usize>,
    /// Whether the order of headers is kept.
    pub preserve_header_order: bool,
    /// The exact size of the read buffer.
    pub read_buf_exact_size: Option<usize>,
    /// The largest size of the buffer.
    pub max_buf_size: Option<usize>,
}

impl Options {
    /// At most one of the two sizes is set, and the largest size is large enough.
    pub open spec fn consistent(&self) -> bool {
        &&& !(self.read_buf_exact_size is Some && self.max_buf_size is Some)
        &&& self.max_buf_size is Some ==> self.max_buf_size->0 >= MINIMUM_MAX_BUFFER_SIZE
    }

    /// The options that nobody has set.
    pub open spec fn unset() -> Options {
        Options {
            h09_responses: false,
            parser: ParserLeniency {
                spaces_after_header_name: false,
                obsolete_multiline_headers: false,
                invalid_headers: false,
            },
            writev: None,
            title_case_headers: false,
            preserve_header_case: false,
            max_headers: None,
            preserve_header_order: false,
            read_buf_exact_size: None,
            max_buf_size: None,
        }
    }
}

/// One thing that is set on a new connection.
#[derive(Debug, Clone, Copy, PartialEq, Eq, Structural)]
pub enum Setting {
    WriteStrategyQueue,
    WriteStrategyFlatten,
    TitleCaseHeaders,
    PreserveHeaderCase,
    MaxHeaders(usize),
    PreserveHeaderOrder,
    H09Responses,
    ReadBufExactSize(usize),
    MaxBufSize(usize),
}

/// A list of one setting or none.
pub open spec fn if_set(set: bool, setting: Setting) -> Seq<Setting> {
    if set {
        seq![setting]
    } else {
        Seq::empty()
    }
}

/// What the options set on a new connection but for the sizes of its buffer, in
/// order.
pub open spec fn flag_settings_of(o: Options) -> Seq<Setting> {
    if_set(o.writev == Some(true), Setting::WriteStrategyQueue) + if_set(
        o.writev == Some(false),
        Setting::WriteStrategyFlatten,
    ) + if_set(o.title_case_headers, Setting::TitleCaseHeaders) + if_set(
        o.preserve_header_case,
        Setting::PreserveHeaderCase,
    ) + if_set(o.max_headers is Some, Setting::MaxHeaders(o.max_headers->0)) + if_set(
        o.preserve_header_order,
        Setting::PreserveHeaderOrder,
    ) + if_set(o.h09_responses, Setting::H09Responses)
}

/// What the options set on a new connection, in order.
pub open spec fn settings_of(o: Options) -> Seq<Setting> {
    flag_settings_of(o) + if_set(
        o.read_buf_exact_size is Some,
        Setting::ReadBufExactSize(o.read_buf_exact_size->0),
    ) + if_set(o.max_buf_size is Some, Setting::MaxBufSize(o.max_buf_size->0))
}

/// No setting of a list is the size of a buffer.
pub open spec fn sets_no_size(list: Seq<Setting>) -> bool {
    forall|i: int|
        0 <= i < list.len() ==> !((#[trigger] list[i]) is ReadBufExactSize) && !(
        list[i] is MaxBufSize)
}

/// What the task of a new connection starts from.
#[verifier::reject_recursive_types(B)]
pub struct Setup<B> {
    /// The requests that it serves.
    pub requests: dispatch::Receiver<Request<B>, Response<Incoming>>,
    /// How it parses responses.
    pub parser_config: ParserConfig,
    /// What else is set on it, in order.
    pub settings: Vec<Setting>,
}

/// Sets the options of a connection up.
#[derive(Debug)]
pub struct Builder {
    h09_responses: bool,
    h1_parser_config: ParserConfig,
    h1_writev: Option<bool>,
    h1_title_case_headers: bool,
    h1_preserve_header_case: bool,
    h1_max_headers: Option<usize>,
    h1_preserve_header_order: bool,
    h1_read_buf_exact_size: Option<usize>,
    h1_max_buf_size: Option<usize>,
}

fn push_if(list: &mut Vec<Setting>, set: bool, setting: Setting)
    ensures
        final(list)@ == old(list)@ + if_set(set, setting),
{
    let ghost before = list@;
    if set {
        list.push(setting);
    }
    assert(list@ =~= before + if_set(set, setting));
}

impl View for Builder {
    type V = Options;

    closed spec fn view(&self) -> Options {
        Options {
            h09_responses: self.h09_responses,
            parser: leniency_of(self.h1_parser_config),
            writev: self.h1_writev,
            title_case_headers: self.h1_title_case_headers,
            preserve_header_case: self.h1_preserve_header_case,
            max_headers: self.h1_max_headers,
            preserve_header_order: self.h1_preserve_header_order,
            read_buf_exact_size: self.h1_read_buf_exact_size,
            max_buf_size: self.h1_max_buf_size,
        }
    }
}

impl Builder {
    /// Options that nobody has set.
    pub fn new() -> (r: Builder)
        ensures
            r@ == Options::unset(),
            r@.consistent(),
    {
        Builder {
            h09_responses: false,
            h1_parser_config: parser_config_new(),
            h1_writev: None,
            h1_title_case_headers: false,
            h1_preserve_header_case: false,
            h1_max_headers: None,
            h1_preserve_header_order: false,
            h1_read_buf_exact_size: None,
            h1_max_buf_size: None,
        }
    }

    /// Whether responses of HTTP/0.9 are taken.
    pub fn http09_responses(&mut self, enabled: bool) -> (r: &mut Builder)
        ensures
            r@ == (Options { h09_responses: enabled, ..old(self)@ }),
            *final(self) == *final(r),
    {
        self.h09_responses = enabled;
        self
    }

    /// Whether the parser lets spaces pass between a header name and its colon.
    pub fn allow_spaces_after_header_name_in_responses(&mut self, enabled: bool) -> (r:
        &mut Builder)
        ensures
            r@ == (Options {
                parser: ParserLeniency { spaces_after_header_name: enabled, ..old(self)@.parser },
                ..old(self)@
            }),
            *final(self) == *final(r),
    {
        parser_allow_spaces(&mut self.h1_parser_config, enabled);
        self
    }

    /// Whether the parser lets header values pass that go on in the next line.
    pub fn allow_obsolete_multiline_headers_in_responses(&mut self, enabled: bool) -> (r:
        &mut Builder)
        ensures
            r@ == (Options {
                parser: ParserLeniency { obsolete_multiline_headers: enabled, ..old(self)@.parser },
                ..old(self)@
            }),
            *final(self) == *final(r),
    {
        parser_allow_multiline(&mut self.h1_parser_config, enabled);
        self
    }

    /// Whether the parser leaves invalid header lines out.
    pub fn ignore_invalid_headers_in_responses(&mut self, enabled: bool) -> (r: &mut Builder)
        ensures
            r@ == (Options {
                parser: ParserLeniency { invalid_headers: enabled, ..old(self)@.parser },
                ..old(self)@
            }),
            *final(self) == *final(r),
    {
        parser_ignore_invalid(&mut self.h1_parser_config, enabled);
        self
    }

    /// Whether vectored writes are used.
    pub fn writev(&mut self, enabled: bool) -> (r: &mut Builder)
        ensures
            r@ == (Options { writev: Some(enabled), ..old(self)@ }),
            *final(self) == *final(r),
    {
        self.h1_writev = Some(enabled);
        self
    }

    /// Whether header names are written in title case.
    pub fn title_case_headers(&mut self, enabled: bool) -> (r: &mut Builder)
        ensures
            r@ == (Options { title_case_headers: enabled, ..old(self)@ }),
            *final(self) == *final(r),
    {
        self.h1_title_case_headers = enabled;
        self
    }

    /// Whether the case of header names is kept.
    pub fn preserve_header_case(&mut self, enabled: bool) -> (r: &mut Builder)
        ensures
            r@ == (Options { preserve_header_case: enabled, ..old(self)@ }),
            *final(self) == *final(r),
    {
        self.h1_preserve_header_case = enabled;
        self
    }

    /// The largest number of headers.
    pub fn max_headers(&mut self, val: usize) -> (r: &mut Builder)
        ensures
            r@ == (Options { max_headers: Some(val), ..old(self)@ }),
            *final(self) == *final(r),
    {
        self.h1_max_headers = Some(val);
        self
    }

    /// Whether the order of headers is kept.
    pub fn preserve_header_order(&mut self, enabled: bool) -> (r: &mut Builder)
        ensures
            r@ == (Options { preserve_header_order: enabled, ..old(self)@ }),
            *final(self) == *final(r),
    {
        self.h1_preserve_header_order = enabled;
        self
    }

    /// The exact size of the read buffer. It takes a largest size back.
    pub fn read_buf_exact_size(&mut self, sz: Option<usize>) -> (r: &mut Builder)
        ensures
            r@ == (Options { read_buf_exact_size: sz, max_buf_size: None, ..old(self)@ }),
            r@.consistent(),
            *final(self) == *final(r),
    {
        self.h1_read_buf_exact_size = sz;
        self.h1_max_buf_size = None;
        self
    }

    /// The largest size of the buffer, not below the minimum. It takes an exact
    /// size back.
    pub fn max_buf_size(&mut self, max: usize) -> (r: &mut Builder)
        requires
            max >= MINIMUM_MAX_BUFFER_SIZE,
        ensures
            r@ == (Options { read_buf_exact_size: None, max_buf_size: Some(max), ..old(self)@ }),
            r@.consistent(),
            *final(self) == *final(r),
    {
        self.h1_max_buf_size = Some(max);
        self.h1_read_buf_exact_size = None;
        self
    }

    /// What the options set on a new connection, in order.
    pub fn settings(&self) -> (r: Vec<Setting>)
        ensures
            r@ == settings_of(self@),
    {
        let mut list: Vec<Setting> = Vec::new();
        let queue: bool = matches!(self.h1_writev, Some(true));
        let flatten: bool = matches!(self.h1_writev, Some(false));
        push_if(&mut list, queue, Setting::WriteStrategyQueue);
        assert(list@ =~= if_set(queue, Setting::WriteStrategyQueue));
        push_if(&mut list, flatten, Setting::WriteStrategyFlatten);
        push_if(&mut list, self.h1_title_case_headers, Setting::TitleCaseHeaders);
        push_if(&mut list, self.h1_preserve_header_case, Setting::PreserveHeaderCase);
        if let Some(max_headers) = self.h1_max_headers {
            push_if(&mut list, true, Setting::MaxHeaders(max_headers));
        } else {
            push_if(&mut list, false, Setting::MaxHeaders(0));
        }
        push_if(&mut list, self.h1_preserve_header_order, Setting::PreserveHeaderOrder);
        push_if(&mut list, self.h09_responses, Setting::H09Responses);
        if let Some(sz) = self.h1_read_buf_exact_size {
            push_if(&mut list, true, Setting::ReadBufExactSize(sz));
        } else {
            push_if(&mut list, false, Setting::ReadBufExactSize(0));
        }
        if let Some(max) = self.h1_max_buf_size {
            push_if(&mut list, true, Setting::MaxBufSize(max));
        } else {
            push_if(&mut list, false, Setting::MaxBufSize(0));
        }
        list
    }

    /// A new connection: the side that sends requests, and what its task starts
    /// from.
    pub fn handshake<B>(&self) -> (r: (SendRequest<B>, Setup<B>))
        ensures
            r.0.sender().feeds(r.1.requests),
            !r.0.has_sent(),
            r.1.requests.wf(),
            !r.1.requests.is_closed(),
            leniency_of(r.1.parser_config) == self@.parser,
            r.1.settings@ == settings_of(self@),
    {
        let (tx, rx) = dispatch::channel();
        (
            SendRequest { dispatch: tx },
            Setup {
                requests: rx,
                parser_config: parser_config_clone(&self.h1_parser_config),
                settings: self.settings(),
            },
        )
    }
}

impl Clone for Builder {
    fn clone(&self) -> (r: Builder)
        ensures
            r@ == self@,
    {
        Builder {
            h09_responses: self.h09_responses,
            h1_parser_config: parser_config_clone(&self.h1_parser_config),
            h1_writev: self.h1_writev,
            h1_title_case_headers: self.h1_title_case_headers,
            h1_preserve_header_case: self.h1_preserve_header_case,
            h1_max_headers: self.h1_max_headers,
            h1_preserve_header_order: self.h1_preserve_header_order,
            h1_read_buf_exact_size: self.h1_read_buf_exact_size,
            h1_max_buf_size: self.h1_max_buf_size,
        }
    }
}

/// A new connection with options that nobody has set.
pub fn handshake<B>() -> (r: (SendRequest<B>, Setup<B>))
    ensures
        r.0.sender().feeds(r.1.requests),
        !r.0.has_sent(),
        r.1.requests.wf(),
        !r.1.requests.is_closed(),
        leniency_of(r.1.parser_config) == Options::unset().parser,
        r.1.settings@ == Seq::<Setting>::empty(),
{
    let r = Builder::new().handshake();
    assert(settings_of(Options::unset()) =~= Seq::<Setting>::empty());
    r
}

proof fn lemma_no_size_concat(a: Seq<Setting>, set: bool, setting: Setting)
    requires
        sets_no_size(a),
        !(setting is ReadBufExactSize) && !(setting is MaxBufSize),
    ensures
        sets_no_size(a + if_set(set, setting)),
{
    let s = a + if_set(set, setting);
    assert forall|i: int| 0 <= i < s.len() implies !((#[trigger] s[i]) is ReadBufExactSize) && !(
    s[i] is MaxBufSize) by {
        if i < a.len() {
            assert(s[i] == a[i]);
        } else {
            assert(s[i] == setting);
        }
    }
}

proof fn lemma_flags_set_no_size(o: Options)
    ensures
        sets_no_size(flag_settings_of(o)),
{
    let a = if_set(o.writev == Some(true), Setting::WriteStrategyQueue);
    let b = a + if_set(o.writev == Some(false), Setting::WriteStrategyFlatten);
    let c = b + if_set(o.title_case_headers, Setting::TitleCaseHeaders);
    let d = c + if_set(o.preserve_header_case, Setting::PreserveHeaderCase);
    let e = d + if_set(o.max_headers is Some, Setting::MaxHeaders(o.max_headers->0));
    let f = e + if_set(o.preserve_header_order, Setting::PreserveHeaderOrder);
    assert(sets_no_size(a));
    lemma_no_size_concat(a, o.writev == Some(false), Setting::WriteStrategyFlatten);
    lemma_no_size_concat(b, o.title_case_headers, Setting::TitleCaseHeaders);
    lemma_no_size_concat(c, o.preserve_header_case, Setting::PreserveHeaderCase);
    lemma_no_size_concat(d, o.max_headers is Some, Setting::MaxHeaders(o.max_headers->0));
    lemma_no_size_concat(e, o.preserve_header_order, Setting::PreserveHeaderOrder);
    lemma_no_size_concat(f, o.h09_responses, Setting::H09Responses);
}

proof fn lemma_in_concat(a: Seq<Setting>, b: Seq<Setting>, x: Setting)
    requires
        (a + b).contains(x),
    ensures
        a.contains(x) || b.contains(x),
{
    let i = choose|i: int| 0 <= i < (a + b).len() && (a + b)[i] == x;
    if i < a.len() {
        assert(a[i] == x);
    } else {
        assert(b[i - a.len()] == x);
    }
}

/// Consistent options set at most one size of the buffer on a connection.
pub proof fn law_one_buffer_size(o: Options, exact: usize, max: usize)
    requires
        o.consistent(),
    ensures
        !(settings_of(o).contains(Setting::ReadBufExactSize(exact)) && settings_of(o).contains(
            Setting::MaxBufSize(max),
        )),
{
    let flags = flag_settings_of(o);
    lemma_flags_set_no_size(o);
    let read = if_set(
        o.read_buf_exact_size is Some,
        Setting::ReadBufExactSize(o.read_buf_exact_size->0),
    );
    let largest = if_set(o.max_buf_size is Some, Setting::MaxBufSize(o.max_buf_size->0));
    assert(settings_of(o) == flags + read + largest);
    if settings_of(o).contains(Setting::ReadBufExactSize(exact)) {
        lemma_in_concat(flags + read, largest, Setting::ReadBufExactSize(exact));
        lemma_in_concat(flags, read, Setting::ReadBufExactSize(exact));
        assert(o.read_buf_exact_size is Some);
    }
    if settings_of(o).contains(Setting::MaxBufSize(max)) {
        lemma_in_concat(flags + read, largest, Setting::MaxBufSize(max));
        if (flags + read).contains(Setting::MaxBufSize(max)) {
            lemma_in_concat(flags, read, Setting::MaxBufSize(max));
        }
        assert(o.max_buf_size is Some);
    }
}

proof fn lemma_contains_if_set(a: Seq<Setting>, set: bool, setting: Setting, x: Setting)
    ensures
        (a + if_set(set, setting)).contains(x) <==> a.contains(x) || set && setting == x,
{
    let s = a + if_set(set, setting);
    if a.contains(x) {
        let i = choose|i: int| 0 <= i < a.len() && a[i] == x;
        assert(s[i] == x);
    }
    if set {
        assert(s[a.len() as int] == setting);
    }
    if s.contains(x) {
        let i = choose|i: int| 0 <= i < s.len() && s[i] == x;
        if i < a.len() {
            assert(a[i] == x);
        }
    }
}

proof fn lemma_settings_contain(o: Options, x: Setting)
    ensures
        settings_of(o).contains(x) <==> {
            ||| o.writev == Some(true) && x == Setting::WriteStrategyQueue
            ||| o.writev == Some(false) && x == Setting::WriteStrategyFlatten
            ||| o.title_case_headers && x == Setting::TitleCaseHeaders
            ||| o.preserve_header_case && x == Setting::PreserveHeaderCase
            ||| o.max_headers is Some && x == Setting::MaxHeaders(o.max_headers->0)
            ||| o.preserve_header_order && x == Setting::PreserveHeaderOrder
            ||| o.h09_responses && x == Setting::H09Responses
            ||| o.read_buf_exact_size is Some && x == Setting::ReadBufExactSize(
                o.read_buf_exact_size->0,
            )
            ||| o.max_buf_size is Some && x == Setting::MaxBufSize(o.max_buf_size->0)
        },
{
    let none = Seq::<Setting>::empty();
    let a = if_set(o.writev == Some(true), Setting::WriteStrategyQueue);
    let b = a + if_set(o.writev == Some(false), Setting::WriteStrategyFlatten);
    let c = b + if_set(o.title_case_headers, Setting::TitleCaseHeaders);
    let d = c + if_set(o.preserve_header_case, Setting::PreserveHeaderCase);
    let e = d + if_set(o.max_headers is Some, Setting::MaxHeaders(o.max_headers->0));
    let f = e + if_set(o.preserve_header_order, Setting::PreserveHeaderOrder);
    let g = f + if_set(o.h09_responses, Setting::H09Responses);
    let h = g + if_set(
        o.read_buf_exact_size is Some,
        Setting::ReadBufExactSize(o.read_buf_exact_size->0),
    );
    lemma_contains_if_set(none, o.writev == Some(true), Setting::WriteStrategyQueue, x);
    assert(none + a =~= a);
    lemma_contains_if_set(a, o.writev == Some(false), Setting::WriteStrategyFlatten, x);
    lemma_contains_if_set(b, o.title_case_headers, Setting::TitleCaseHeaders, x);
    lemma_contains_if_set(c, o.preserve_header_case, Setting::PreserveHeaderCase, x);
    lemma_contains_if_set(d, o.max_headers is Some, Setting::MaxHeaders(o.max_headers->0), x);
    lemma_contains_if_set(e, o.preserve_header_order, Setting::PreserveHeaderOrder, x);
    lemma_contains_if_set(f, o.h09_responses, Setting::H09Responses, x);
    lemma_contains_if_set(
        g,
        o.read_buf_exact_size is Some,
        Setting::ReadBufExactSize(o.read_buf_exact_size->0),
        x,
    );
    lemma_contains_if_set(
        h,
        o.max_buf_size is Some,
        Setting::MaxBufSize(o.max_buf_size->0),
        x,
    );
    assert(settings_of(o) == h + if_set(
        o.max_buf_size is Some,
        Setting::MaxBufSize(o.max_buf_size->0),
    ));
}

/// Each option sets what it says on a new connection, with the number that it says, and
/// nothing sets anything else: what is set follows from that option alone.
pub proof fn law_each_option_sets_its_own(o: Options, n: usize)
    ensures
        settings_of(o).contains(Setting::TitleCaseHeaders) <==> o.title_case_headers,
        settings_of(o).contains(Setting::PreserveHeaderCase) <==> o.preserve_header_case,
        settings_of(o).contains(Setting::PreserveHeaderOrder) <==> o.preserve_header_order,
        settings_of(o).contains(Setting::H09Responses) <==> o.h09_responses,
        settings_of(o).contains(Setting::WriteStrategyQueue) <==> o.writev == Some(true),
        settings_of(o).contains(Setting::WriteStrategyFlatten) <==> o.writev == Some(false),
        settings_of(o).contains(Setting::MaxHeaders(n)) <==> o.max_headers == Some(n),
        settings_of(o).contains(Setting::ReadBufExactSize(n)) <==> o.read_buf_exact_size == Some(n),
        settings_of(o).contains(Setting::MaxBufSize(n)) <==> o.max_buf_size == Some(n),
{
    lemma_settings_contain(o, Setting::TitleCaseHeaders);
    lemma_settings_contain(o, Setting::PreserveHeaderCase);
    lemma_settings_contain(o, Setting::PreserveHeaderOrder);
    lemma_settings_contain(o, Setting::H09Responses);
    lemma_settings_contain(o, Setting::WriteStrategyQueue);
    lemma_settings_contain(o, Setting::WriteStrategyFlatten);
    lemma_settings_contain(o, Setting::MaxHeaders(n));
    lemma_settings_contain(o, Setting::ReadBufExactSize(n));
    lemma_settings_contain(o, Setting::MaxBufSize(n));
}

/// How many options of a connection are set.
pub open spec fn options_set(o: Options) -> nat {
    (if o.writev is Some { 1nat } else { 0nat }) + (if o.title_case_headers { 1nat } else { 0nat })
        + (if o.preserve_header_case { 1nat } else { 0nat }) + (if o.max_headers is Some {
        1nat
    } else {
        0nat
    }) + (if o.preserve_header_order { 1nat } else { 0nat }) + (if o.h09_responses {
        1nat
    } else {
        0nat
    }) + (if o.read_buf_exact_size is Some { 1nat } else { 0nat }) + (if o.max_buf_size is Some {
        1nat
    } else {
        0nat
    })
}

/// There are as many settings as options that are set, so that none comes twice.
pub proof fn law_each_setting_comes_once(o: Options)
    ensures
        settings_of(o).len() == options_set(o),
{
    assert(o.writev is Some ==> o.writev == Some(true) || o.writev == Some(false));
    assert(flag_settings_of(o).len() == options_set(o) - (if o.read_buf_exact_size is Some {
        1int
    } else {
        0int
    }) - (if o.max_buf_size is Some { 1int } else { 0int }));
}

/// Options that nobody has set set nothing, and let nothing invalid pass.
pub proof fn law_unset_options(x: Setting)
    ensures
        !settings_of(Options::unset()).contains(x),
        !Options::unset().parser.spaces_after_header_name,
        !Options::unset().parser.obsolete_multiline_headers,
        !Options::unset().parser.invalid_headers,
{
    lemma_settings_contain(Options::unset(), x);
}

/// A request that was not taken up is answered as canceled, and comes back where it is
/// to; one that was is answered by its promise, and by nothing else.
pub proof fn law_requests_not_taken_up<P, Q>(
    sent: std::result::Result<P, Q>,
    r: Result<P>,
    back: std::result::Result<P, TrySendError<Q>>,
)
    requires
        promised_is(sent, r),
        promised_or_back_is(sent, back),
    ensures
        sent is Ok <==> r is Ok,
        sent is Ok <==> back is Ok,
        sent is Ok ==> r->Ok_0 == sent->Ok_0 && back->Ok_0 == sent->Ok_0,
        sent is Err ==> r->Err_0.spec_kind() == Kind::Canceled && r->Err_0.chain().len() == 1
            && r->Err_0.chain()[0] is Message && r->Err_0.chain()[0]->Message_0@
            == "connection was not ready"@,
        sent is Err ==> back->Err_0.spec_error().spec_kind() == Kind::Canceled
            && back->Err_0.spec_error().chain().len() == 1 && back->Err_0.spec_error().chain()[0]
            is Message && back->Err_0.spec_error().chain()[0]->Message_0@
            == "connection was not ready"@,
        sent is Err ==> back->Err_0.spec_message() == Some(sent->Err_0),
{
}

/// A connection that failed passes its error on; one that is done does nothing more; and
/// only one that goes over to another protocol hands its transport over, to the one who
/// waits for it where upgrades are served and by hand where they are not.
pub proof fn law_ends_of_connections(end: Result<Dispatched>, upgrades: bool)
    ensures
        spec_finish(end, upgrades) is Err <==> end is Err,
        end is Err ==> spec_finish(end, upgrades)->Err_0 == end->Err_0,
        spec_finish(end, upgrades) == Ok::<Finish, Error>(Finish::Closed) <==> end == Ok::<
            Dispatched,
            Error,
        >(Dispatched::Shutdown),
        spec_finish(end, upgrades) == Ok::<Finish, Error>(Finish::HandOver) <==> upgrades && end
            == Ok::<Dispatched, Error>(Dispatched::Upgrade),
        spec_finish(end, upgrades) == Ok::<Finish, Error>(Finish::ManualUpgrade) <==> !upgrades
            && end == Ok::<Dispatched, Error>(Dispatched::Upgrade),
{
}

} // verus!
