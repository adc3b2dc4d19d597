//! Errors: what went wrong with a message or a connection, and why.

use vstd::prelude::*;
use vstd::std_specs::convert::FromSpec;

use crate::outside::h2_crate::{
    h2_error_code, h2_error_has_io, h2_error_io, h2_error_reason, reason_code,
    reason_internal_error,
};
use crate::outside::httparse_crate::{parser_fault, parser_fault_of, ParserFault};

verus! {

/// The result of an operation that can fail with an [`Error`].
pub type Result<T> = std::result::Result<T, Error>;

/// An error of the library: a kind, and optionally the chain of errors that
/// led to it.
#[derive(Debug)]
pub struct Error {
    inner: Box<ErrorImpl>,
}

#[derive(Debug)]
struct ErrorImpl {
    kind: Kind,
    cause: Option<Cause>,
}

/// What an [`Error`] is about.
#[derive(Debug, Clone, Copy, PartialEq, Eq, Structural)]
pub enum Kind {
    /// A message head could not be parsed.
    Parse(Parse),
    /// User code is at fault.
    User(User),
    /// The connection ended before the message was complete.
    IncompleteMessage,
    /// The connection received a message, or bytes, at the wrong time.
    UnexpectedMessage,
    /// A pending item was dropped before it was processed.
    Canceled,
    /// A channel (of a client or of a body) is closed.
    ChannelClosed,
    /// Reading or writing the transport failed.
    Io,
    /// A client took too long to send its header.
    HeaderTimeout,
    /// Reading a body failed.
    Body,
    /// Writing a body failed.
    BodyWrite,
    /// Shutting the transport down failed.
    Shutdown,
    /// A general HTTP/2 error.
    Http2,
}

/// How parsing failed.
#[derive(Debug, Clone, Copy, PartialEq, Eq, Structural)]
pub enum Parse {
    Method,
    Version,
    VersionH2,
    Uri,
    UriTooLong,
    Header(Header),
    TooLarge,
    Status,
    Internal,
}

/// What is wrong with a header.
#[derive(Debug, Clone, Copy, PartialEq, Eq, Structural)]
pub enum Header {
    Token,
    ContentLengthInvalid,
    TransferEncodingInvalid,
    TransferEncodingUnexpected,
}

/// What user code did.
#[derive(Debug, Clone, Copy, PartialEq, Eq, Structural)]
pub enum User {
    /// The user's body stream failed.
    Body,
    /// The user gave up writing a body.
    BodyWriteAborted,
    /// The user sent a CONNECT request with a body.
    InvalidConnectWithBody,
    /// The user's service failed.
    Service,
    /// The user sent a header where it is not expected.
    UnexpectedHeader,
    /// The user answered with a 1xx status that is not 101.
    UnsupportedStatusCode,
    /// There is no upgrade to wait for.
    NoUpgrade,
    /// An upgrade was awaited while the low level API is in use.
    ManualUpgrade,
    /// The dispatch task is gone.
    DispatchGone,
    /// A callback of the application asked to stop.
    AbortedByCallback,
}

/// Marks an error that a timeout caused.
#[derive(Debug, Clone, Copy, PartialEq, Eq, Structural)]
pub struct TimedOut;

impl TimedOut {
    /// The message of this error.
    pub fn description(&self) -> (text: &'static str)
        ensures
            text@ == "operation timed out"@,
    {
        "operation timed out"
    }
}

/// One error in a chain of causes.
#[derive(Debug)]
pub enum Link {
    /// An error known by its message only.
    Message(String),
    /// A timeout.
    TimedOut(TimedOut),
    /// An error of the HTTP/2 layer.
    H2(h2::Error),
    /// An I/O error.
    Io(std::io::Error),
    /// An error of this library; its own causes follow it in the chain.
    Hyper(Kind),
}

/// Why an error came about: the errors behind it, the nearest first.
#[derive(Debug)]
pub struct Cause {
    pub links: Vec<Link>,
}

impl View for Cause {
    type V = Seq<Link>;

    open spec fn view(&self) -> Seq<Link> {
        self.links@
    }
}

impl Cause {
    /// A cause of one link.
    fn single(link: Link) -> (cause: Cause)
        ensures
            cause@ == seq![link],
    {
        let mut links: Vec<Link> = Vec::new();
        links.push(link);
        assert(links@ =~= seq![link]);
        Cause { links }
    }

    /// A cause known by its message only.
    pub fn message(text: String) -> (cause: Cause)
        ensures
            cause@ == seq![Link::Message(text)],
    {
        Cause::single(Link::Message(text))
    }

    /// A timeout as a cause.
    pub fn timed_out() -> (cause: Cause)
        ensures
            cause@ == seq![Link::TimedOut(TimedOut)],
    {
        Cause::single(Link::TimedOut(TimedOut))
    }

    /// An error of the HTTP/2 layer as a cause.
    pub fn h2(err: h2::Error) -> (cause: Cause)
        ensures
            cause@ == seq![Link::H2(err)],
    {
        Cause::single(Link::H2(err))
    }

    /// An I/O error as a cause. What lies behind it is added with
    /// [`Error::and_behind`].
    pub fn io(err: std::io::Error) -> (cause: Cause)
        ensures
            cause@ == seq![Link::Io(err)],
    {
        Cause::single(Link::Io(err))
    }

    /// An error of this library as a cause: the error itself, then what caused it.
    pub fn error(err: Error) -> (cause: Cause)
        ensures
            cause@ == seq![Link::Hyper(err.spec_kind())] + err.chain(),
    {
        let ErrorImpl { kind, cause } = *err.inner;
        let mut links: Vec<Link> = Vec::new();
        links.push(Link::Hyper(kind));
        if let Some(rest) = cause {
            let mut tail: Vec<Link> = rest.links;
            links.append(&mut tail);
        }
        assert(links@ =~= seq![Link::Hyper(kind)] + err.chain());
        Cause { links }
    }
}

/// Whether a link is a timeout.
pub open spec fn link_is_timeout(link: Link) -> bool {
    link is TimedOut
}

/// Whether a timeout caused an error of a kind and with a chain of causes.
pub open spec fn timed_out(kind: Kind, chain: Seq<Link>) -> bool {
    kind == Kind::HeaderTimeout || exists|i: int|
        0 <= i < chain.len() && link_is_timeout(#[trigger] chain[i])
}

/// Whether an error of a kind says that a message was too large.
pub open spec fn kind_is_too_large(kind: Kind) -> bool {
    kind == Kind::Parse(Parse::TooLarge) || kind == Kind::Parse(Parse::UriTooLong)
}

/// Whether a link is an error of the HTTP/2 layer.
pub open spec fn link_is_h2(link: Link) -> bool {
    link is H2
}

/// The position of the first error of the HTTP/2 layer in a chain, or the
/// chain's length.
pub open spec fn first_h2(chain: Seq<Link>) -> nat
    decreases chain.len(),
{
    if chain.len() == 0 || link_is_h2(chain[0]) {
        0
    } else {
        1 + first_h2(chain.skip(1))
    }
}

/// The HTTP/2 error code that speaks for a chain of causes: that of its first
/// error of the HTTP/2 layer, and INTERNAL_ERROR (2) where there is none or it
/// has no code.
pub open spec fn chain_h2_code(chain: Seq<Link>) -> u32 {
    let i = first_h2(chain) as int;
    if i < chain.len() {
        match h2_error_code(chain[i]->H2_0) {
            Some(code) => code,
            None => 2,
        }
    } else {
        2
    }
}

proof fn lemma_first_h2(chain: Seq<Link>, i: int)
    requires
        0 <= i <= chain.len(),
        forall|j: int| 0 <= j < i ==> !link_is_h2(#[trigger] chain[j]),
        i == chain.len() || link_is_h2(chain[i]),
    ensures
        first_h2(chain) == i,
    decreases chain.len(),
{
    if i > 0 {
        let rest = chain.skip(1);
        assert forall|j: int| 0 <= j < i - 1 implies !link_is_h2(#[trigger] rest[j]) by {
            assert(rest[j] == chain[j + 1]);
        }
        if i < chain.len() {
            assert(rest[i - 1] == chain[i]);
        }
        lemma_first_h2(rest, i - 1);
    }
}

/// The text that describes an error of a kind.
pub open spec fn kind_text(kind: Kind) -> Seq<char> {
    match kind {
        Kind::Parse(Parse::Method) => "invalid HTTP method parsed"@,
        Kind::Parse(Parse::Version) => "invalid HTTP version parsed"@,
        Kind::Parse(Parse::VersionH2) => "invalid HTTP version parsed (found HTTP2 preface)"@,
        Kind::Parse(Parse::Uri) => "invalid URI"@,
        Kind::Parse(Parse::UriTooLong) => "URI too long"@,
        Kind::Parse(Parse::Header(Header::Token)) => "invalid HTTP header parsed"@,
        Kind::Parse(Parse::Header(Header::ContentLengthInvalid)) => {
            "invalid content-length parsed"@
        },
        Kind::Parse(Parse::Header(Header::TransferEncodingInvalid)) => {
            "invalid transfer-encoding parsed"@
        },
        Kind::Parse(Parse::Header(Header::TransferEncodingUnexpected)) => {
            "unexpected transfer-encoding parsed"@
        },
        Kind::Parse(Parse::TooLarge) => "message head is too large"@,
        Kind::Parse(Parse::Status) => "invalid HTTP status-code parsed"@,
        Kind::Parse(Parse::Internal) => {
            "internal error inside Hyper and/or its dependencies, please report"@
        },
        Kind::IncompleteMessage => "connection closed before message completed"@,
        Kind::UnexpectedMessage => "received unexpected message from connection"@,
        Kind::ChannelClosed => "channel closed"@,
        Kind::Canceled => "operation was canceled"@,
        Kind::HeaderTimeout => "read header from client timeout"@,
        Kind::Body => "error reading a body from connection"@,
        Kind::BodyWrite => "error writing a body to connection"@,
        Kind::Shutdown => "error shutting down connection"@,
        Kind::Http2 => "http2 error"@,
        Kind::Io => "connection error"@,
        Kind::User(User::Body) => "error from user's Body stream"@,
        Kind::User(User::BodyWriteAborted) => "user body write aborted"@,
        Kind::User(User::InvalidConnectWithBody) => "user sent CONNECT request with non-zero body"@,
        Kind::User(User::Service) => "error from user's Service"@,
        Kind::User(User::UnexpectedHeader) => "user sent unexpected header"@,
        Kind::User(User::UnsupportedStatusCode) => {
            "response has 1xx status code, not supported by server"@
        },
        Kind::User(User::NoUpgrade) => "no upgrade available"@,
        Kind::User(User::ManualUpgrade) => "upgrade expected but low level API in use"@,
        Kind::User(User::DispatchGone) => "dispatch task is gone"@,
        Kind::User(User::AbortedByCallback) => "operation aborted by an application callback"@,
    }
}

impl Error {
    /// The kind of the error.
    pub closed spec fn spec_kind(&self) -> Kind {
        self.inner.kind
    }

    /// The errors that led to this one, the nearest first.
    pub closed spec fn chain(&self) -> Seq<Link> {
        match self.inner.cause {
            Some(cause) => cause@,
            None => Seq::empty(),
        }
    }

    /// The error is of this kind and has no cause.
    pub open spec fn is_bare(&self, kind: Kind) -> bool {
        self.spec_kind() == kind && self.chain() == Seq::<Link>::empty()
    }

    /// The error is of this kind and a message is its only cause.
    pub open spec fn says(&self, kind: Kind, text: Seq<char>) -> bool {
        &&& self.spec_kind() == kind
        &&& self.chain().len() == 1
        &&& self.chain()[0] is Message
        &&& self.chain()[0]->Message_0@ == text
    }

    /// An error of a kind, without a cause.
    pub fn new(kind: Kind) -> (err: Error)
        ensures
            err.is_bare(kind),
    {
        Error { inner: Box::new(ErrorImpl { kind, cause: None }) }
    }

    /// The same error with this cause in place of any that it had.
    pub fn with(self, cause: Cause) -> (err: Error)
        ensures
            err.spec_kind() == self.spec_kind(),
            err.chain() == cause@,
    {
        let ErrorImpl { kind, cause: _ } = *self.inner;
        Error { inner: Box::new(ErrorImpl { kind, cause: Some(cause) }) }
    }

    /// The errors that led to this one, the nearest first.
    pub fn causes(&self) -> (links: &[Link])
        ensures
            links@ == self.chain(),
    {
        match &self.inner.cause {
            Some(cause) => cause.links.as_slice(),
            None => {
                let none: &[Link] = &[];
                assert(none@ =~= Seq::<Link>::empty());
                none
            },
        }
    }

    /// The same error with more errors at the far end of its chain of causes.
    pub fn and_behind(self, behind: Vec<Link>) -> (err: Error)
        ensures
            err.spec_kind() == self.spec_kind(),
            err.chain() == self.chain() + behind@,
    {
        let ErrorImpl { kind, cause } = *self.inner;
        let mut links: Vec<Link> = match cause {
            Some(cause) => cause.links,
            None => Vec::new(),
        };
        let mut more: Vec<Link> = behind;
        links.append(&mut more);
        assert(links@ =~= self.chain() + behind@);
        Error { inner: Box::new(ErrorImpl { kind, cause: Some(Cause { links }) }) }
    }

    /// What the error is about.
    pub fn kind(&self) -> (kind: &Kind)
        ensures
            *kind == self.spec_kind(),
    {
        &self.inner.kind
    }

    /// The error behind this one, if there is one: the nearest link of the chain.
    pub fn source(&self) -> (link: Option<&Link>)
        ensures
            link is Some <==> self.chain().len() > 0,
            link is Some ==> *link->0 == self.chain()[0],
    {
        match &self.inner.cause {
            Some(cause) => {
                if cause.links.len() > 0 {
                    Some(&cause.links[0])
                } else {
                    None
                }
            },
            None => None,
        }
    }

    /// The first error of the HTTP/2 layer among the causes.
    pub fn find_h2(&self) -> (found: Option<&h2::Error>)
        ensures
            found is Some <==> first_h2(self.chain()) < self.chain().len(),
            found is Some ==> *found->0 == self.chain()[first_h2(self.chain()) as int]->H2_0,
    {
        let ghost chain = self.chain();
        if let Some(cause) = &self.inner.cause {
            let mut i: usize = 0;
            while i < cause.links.len()
                invariant
                    chain == cause@,
                    chain == self.chain(),
                    i <= cause.links.len(),
                    forall|j: int| 0 <= j < i ==> !link_is_h2(#[trigger] chain[j]),
                decreases cause.links.len() - i,
            {
                if let Link::H2(err) = &cause.links[i] {
                    proof {
                        lemma_first_h2(chain, i as int);
                    }
                    return Some(err);
                }
                i = i + 1;
            }
            proof {
                lemma_first_h2(chain, i as int);
            }
        }
        None
    }

    /// Whether a timeout is among the causes.
    pub fn find_timed_out(&self) -> (found: bool)
        ensures
            found <==> exists|i: int|
                0 <= i < self.chain().len() && link_is_timeout(#[trigger] self.chain()[i]),
    {
        let ghost chain = self.chain();
        if let Some(cause) = &self.inner.cause {
            let mut i: usize = 0;
            while i < cause.links.len()
                invariant
                    chain == cause@,
                    chain == self.chain(),
                    i <= cause.links.len(),
                    forall|j: int| 0 <= j < i ==> !link_is_timeout(#[trigger] chain[j]),
                decreases cause.links.len() - i,
            {
                if let Link::TimedOut(_) = &cause.links[i] {
                    assert(link_is_timeout(chain[i as int]));
                    return true;
                }
                i = i + 1;
            }
        }
        false
    }

    /// The HTTP/2 error code to answer this error with.
    pub fn h2_reason(&self) -> (reason: h2::Reason)
        ensures
            reason_code(reason) == chain_h2_code(self.chain()),
    {
        match self.find_h2() {
            Some(err) => match h2_error_reason(err) {
                Some(reason) => reason,
                None => reason_internal_error(),
            },
            None => reason_internal_error(),
        }
    }

    /// Whether parsing a message failed.
    pub fn is_parse(&self) -> (r: bool)
        ensures
            r == (self.spec_kind() is Parse),
    {
        matches!(self.inner.kind, Kind::Parse(_))
    }

    /// Whether parsing failed because the message was too large.
    pub fn is_parse_too_large(&self) -> (r: bool)
        ensures
            r == kind_is_too_large(self.spec_kind()),
    {
        matches!(self.inner.kind, Kind::Parse(Parse::TooLarge) | Kind::Parse(Parse::UriTooLong))
    }

    /// Whether parsing failed on the status code or the reason phrase.
    pub fn is_parse_status(&self) -> (r: bool)
        ensures
            r == (self.spec_kind() == Kind::Parse(Parse::Status)),
    {
        matches!(self.inner.kind, Kind::Parse(Parse::Status))
    }

    /// Whether user code is at fault.
    pub fn is_user(&self) -> (r: bool)
        ensures
            r == (self.spec_kind() is User),
    {
        matches!(self.inner.kind, Kind::User(_))
    }

    /// Whether a request was canceled.
    pub fn is_canceled(&self) -> (r: bool)
        ensures
            r == (self.spec_kind() == Kind::Canceled),
    {
        matches!(self.inner.kind, Kind::Canceled)
    }

    /// Whether the channel of a sender is closed.
    pub fn is_closed(&self) -> (r: bool)
        ensures
            r == (self.spec_kind() == Kind::ChannelClosed),
    {
        matches!(self.inner.kind, Kind::ChannelClosed)
    }

    /// Whether the connection closed before a message was complete.
    pub fn is_incomplete_message(&self) -> (r: bool)
        ensures
            r == (self.spec_kind() == Kind::IncompleteMessage),
    {
        matches!(self.inner.kind, Kind::IncompleteMessage)
    }

    /// Whether writing a body was given up.
    pub fn is_body_write_aborted(&self) -> (r: bool)
        ensures
            r == (self.spec_kind() == Kind::User(User::BodyWriteAborted)),
    {
        matches!(self.inner.kind, Kind::User(User::BodyWriteAborted))
    }

    /// Whether the error came of shutting the transport down.
    pub fn is_shutdown(&self) -> (r: bool)
        ensures
            r == (self.spec_kind() == Kind::Shutdown),
    {
        matches!(self.inner.kind, Kind::Shutdown)
    }

    /// Whether a timeout caused the error.
    pub fn is_timeout(&self) -> (r: bool)
        ensures
            r == timed_out(self.spec_kind(), self.chain()),
    {
        if matches!(self.inner.kind, Kind::HeaderTimeout) {
            return true;
        }
        self.find_timed_out()
    }

    /// A pending item was dropped.
    pub fn new_canceled() -> (err: Error)
        ensures
            err.is_bare(Kind::Canceled),
    {
        Error::new(Kind::Canceled)
    }

    /// The connection ended in the middle of a message.
    pub fn new_incomplete() -> (err: Error)
        ensures
            err.is_bare(Kind::IncompleteMessage),
    {
        Error::new(Kind::IncompleteMessage)
    }

    /// The message head is too large.
    pub fn new_too_large() -> (err: Error)
        ensures
            err.is_bare(Kind::Parse(Parse::TooLarge)),
    {
        Error::new(Kind::Parse(Parse::TooLarge))
    }

    /// An HTTP/2 preface came where HTTP/1 was expected.
    pub fn new_version_h2() -> (err: Error)
        ensures
            err.is_bare(Kind::Parse(Parse::VersionH2)),
    {
        Error::new(Kind::Parse(Parse::VersionH2))
    }

    /// A message came at the wrong time.
    pub fn new_unexpected_message() -> (err: Error)
        ensures
            err.is_bare(Kind::UnexpectedMessage),
    {
        Error::new(Kind::UnexpectedMessage)
    }

    /// The transport failed.
    pub fn new_io(cause: Cause) -> (err: Error)
        ensures
            err.spec_kind() == Kind::Io,
            err.chain() == cause@,
    {
        Error::new(Kind::Io).with(cause)
    }

    /// A channel is closed.
    pub fn new_closed() -> (err: Error)
        ensures
            err.is_bare(Kind::ChannelClosed),
    {
        Error::new(Kind::ChannelClosed)
    }

    /// Reading a body failed.
    pub fn new_body(cause: Cause) -> (err: Error)
        ensures
            err.spec_kind() == Kind::Body,
            err.chain() == cause@,
    {
        Error::new(Kind::Body).with(cause)
    }

    /// Writing a body failed.
    pub fn new_body_write(cause: Cause) -> (err: Error)
        ensures
            err.spec_kind() == Kind::BodyWrite,
            err.chain() == cause@,
    {
        Error::new(Kind::BodyWrite).with(cause)
    }

    /// The user gave up writing a body.
    pub fn new_body_write_aborted() -> (err: Error)
        ensures
            err.is_bare(Kind::User(User::BodyWriteAborted)),
    {
        Error::new(Kind::User(User::BodyWriteAborted))
    }

    fn new_user(user: User) -> (err: Error)
        ensures
            err.is_bare(Kind::User(user)),
    {
        Error::new(Kind::User(user))
    }

    /// The user sent a header where it is not expected.
    pub fn new_user_header() -> (err: Error)
        ensures
            err.is_bare(Kind::User(User::UnexpectedHeader)),
    {
        Error::new_user(User::UnexpectedHeader)
    }

    /// A client took too long to send its header.
    pub fn new_header_timeout() -> (err: Error)
        ensures
            err.is_bare(Kind::HeaderTimeout),
    {
        Error::new(Kind::HeaderTimeout)
    }

    /// The user answered with an unsupported status.
    pub fn new_user_unsupported_status_code() -> (err: Error)
        ensures
            err.is_bare(Kind::User(User::UnsupportedStatusCode)),
    {
        Error::new_user(User::UnsupportedStatusCode)
    }

    /// There is no upgrade to wait for.
    pub fn new_user_no_upgrade() -> (err: Error)
        ensures
            err.is_bare(Kind::User(User::NoUpgrade)),
    {
        Error::new_user(User::NoUpgrade)
    }

    /// An upgrade was awaited while the low level API is in use.
    pub fn new_user_manual_upgrade() -> (err: Error)
        ensures
            err.is_bare(Kind::User(User::ManualUpgrade)),
    {
        Error::new_user(User::ManualUpgrade)
    }

    /// The user's service failed.
    pub fn new_user_service(cause: Cause) -> (err: Error)
        ensures
            err.spec_kind() == Kind::User(User::Service),
            err.chain() == cause@,
    {
        Error::new_user(User::Service).with(cause)
    }

    /// The user's body stream failed.
    pub fn new_user_body(cause: Cause) -> (err: Error)
        ensures
            err.spec_kind() == Kind::User(User::Body),
            err.chain() == cause@,
    {
        Error::new_user(User::Body).with(cause)
    }

    /// The user sent a CONNECT request with a body.
    pub fn new_user_invalid_connect() -> (err: Error)
        ensures
            err.is_bare(Kind::User(User::InvalidConnectWithBody)),
    {
        Error::new_user(User::InvalidConnectWithBody)
    }

    /// Shutting the transport down failed.
    pub fn new_shutdown(cause: Cause) -> (err: Error)
        ensures
            err.spec_kind() == Kind::Shutdown,
            err.chain() == cause@,
    {
        Error::new(Kind::Shutdown).with(cause)
    }

    /// A callback of the application asked to stop.
    pub fn new_user_aborted_by_callback() -> (err: Error)
        ensures
            err.is_bare(Kind::User(User::AbortedByCallback)),
    {
        Error::new_user(User::AbortedByCallback)
    }

    /// The dispatch task is gone.
    pub fn new_user_dispatch_gone() -> (err: Error)
        ensures
            err.is_bare(Kind::User(User::DispatchGone)),
    {
        Error::new(Kind::User(User::DispatchGone))
    }

    /// An error of the HTTP/2 layer: a plain I/O error where it holds one.
    pub fn new_h2(cause: h2::Error) -> (err: Error)
        ensures
            h2_error_has_io(cause) ==> err.spec_kind() == Kind::Io && err.chain()
                == seq![Link::Io(h2_error_io(cause))],
            !h2_error_has_io(cause) ==> err.spec_kind() == Kind::Http2 && err.chain()
                == seq![Link::H2(cause)],
    {
        if cause.is_io() {
            Error::new_io(Cause::io(cause.into_io().unwrap()))
        } else {
            Error::new(Kind::Http2).with(Cause::h2(cause))
        }
    }

    /// The text that describes this error, without its causes.
    pub fn description(&self) -> (text: &'static str)
        ensures
            text@ == kind_text(self.spec_kind()),
    {
        match self.inner.kind {
            Kind::Parse(Parse::Method) => "invalid HTTP method parsed",
            Kind::Parse(Parse::Version) => "invalid HTTP version parsed",
            Kind::Parse(Parse::VersionH2) => "invalid HTTP version parsed (found HTTP2 preface)",
            Kind::Parse(Parse::Uri) => "invalid URI",
            Kind::Parse(Parse::UriTooLong) => "URI too long",
            Kind::Parse(Parse::Header(Header::Token)) => "invalid HTTP header parsed",
            Kind::Parse(Parse::Header(Header::ContentLengthInvalid)) => {
                "invalid content-length parsed"
            },
            Kind::Parse(Parse::Header(Header::TransferEncodingInvalid)) => {
                "invalid transfer-encoding parsed"
            },
            Kind::Parse(Parse::Header(Header::TransferEncodingUnexpected)) => {
                "unexpected transfer-encoding parsed"
            },
            Kind::Parse(Parse::TooLarge) => "message head is too large",
            Kind::Parse(Parse::Status) => "invalid HTTP status-code parsed",
            Kind::Parse(Parse::Internal) => {
                "internal error inside Hyper and/or its dependencies, please report"
            },
            Kind::IncompleteMessage => "connection closed before message completed",
            Kind::UnexpectedMessage => "received unexpected message from connection",
            Kind::ChannelClosed => "channel closed",
            Kind::Canceled => "operation was canceled",
            Kind::HeaderTimeout => "read header from client timeout",
            Kind::Body => "error reading a body from connection",
            Kind::BodyWrite => "error writing a body to connection",
            Kind::Shutdown => "error shutting down connection",
            Kind::Http2 => "http2 error",
            Kind::Io => "connection error",
            Kind::User(User::Body) => "error from user's Body stream",
            Kind::User(User::BodyWriteAborted) => "user body write aborted",
            Kind::User(User::InvalidConnectWithBody) => {
                "user sent CONNECT request with non-zero body"
            },
            Kind::User(User::Service) => "error from user's Service",
            Kind::User(User::UnexpectedHeader) => "user sent unexpected header",
            Kind::User(User::UnsupportedStatusCode) => {
                "response has 1xx status code, not supported by server"
            },
            Kind::User(User::NoUpgrade) => "no upgrade available",
            Kind::User(User::ManualUpgrade) => "upgrade expected but low level API in use",
            Kind::User(User::DispatchGone) => "dispatch task is gone",
            Kind::User(User::AbortedByCallback) => "operation aborted by an application callback",
        }
    }
}

impl From<Parse> for Error {
    fn from(err: Parse) -> (r: Error)
        ensures
            r.is_bare(Kind::Parse(err)),
    {
        Error::new(Kind::Parse(err))
    }
}

// What the conversion gives is stated at the conversion itself.
impl vstd::std_specs::convert::FromSpecImpl<Parse> for Error {
    open spec fn obeys_from_spec() -> bool {
        false
    }

    open spec fn from_spec(v: Parse) -> Error {
        arbitrary()
    }
}

impl Parse {
    /// The content-length header is invalid.
    pub fn content_length_invalid() -> (r: Parse)
        ensures
            r == Parse::Header(Header::ContentLengthInvalid),
    {
        Parse::Header(Header::ContentLengthInvalid)
    }

    /// The transfer-encoding header is invalid.
    pub fn transfer_encoding_invalid() -> (r: Parse)
        ensures
            r == Parse::Header(Header::TransferEncodingInvalid),
    {
        Parse::Header(Header::TransferEncodingInvalid)
    }

    /// The transfer-encoding header should not be there.
    pub fn transfer_encoding_unexpected() -> (r: Parse)
        ensures
            r == Parse::Header(Header::TransferEncodingUnexpected),
    {
        Parse::Header(Header::TransferEncodingUnexpected)
    }

    /// The parse error that stands for a fault of the HTTP/1 parser.
    pub open spec fn spec_of_fault(fault: ParserFault) -> Parse {
        match fault {
            ParserFault::Name | ParserFault::Value | ParserFault::NewLine
            | ParserFault::Token => Parse::Header(Header::Token),
            ParserFault::Status => Parse::Status,
            ParserFault::TooManyHeaders => Parse::TooLarge,
            ParserFault::Version => Parse::Version,
        }
    }

    /// The parse error that stands for a fault of the HTTP/1 parser.
    pub fn of_fault(fault: ParserFault) -> (r: Parse)
        ensures
            r == Parse::spec_of_fault(fault),
    {
        match fault {
            ParserFault::Name | ParserFault::Value | ParserFault::NewLine
            | ParserFault::Token => Parse::Header(Header::Token),
            ParserFault::Status => Parse::Status,
            ParserFault::TooManyHeaders => Parse::TooLarge,
            ParserFault::Version => Parse::Version,
        }
    }
}

impl From<httparse::Error> for Parse {
    fn from(err: httparse::Error) -> (r: Parse) {
        Parse::of_fault(parser_fault(err))
    }
}

impl vstd::std_specs::convert::FromSpecImpl<httparse::Error> for Parse {
    open spec fn obeys_from_spec() -> bool {
        true
    }

    open spec fn from_spec(v: httparse::Error) -> Parse {
        Parse::spec_of_fault(parser_fault_of(v))
    }
}

impl From<http::method::InvalidMethod> for Parse {
    fn from(_err: http::method::InvalidMethod) -> (r: Parse) {
        Parse::Method
    }
}

impl vstd::std_specs::convert::FromSpecImpl<http::method::InvalidMethod> for Parse {
    open spec fn obeys_from_spec() -> bool {
        true
    }

    open spec fn from_spec(v: http::method::InvalidMethod) -> Parse {
        Parse::Method
    }
}

impl From<http::status::InvalidStatusCode> for Parse {
    fn from(_err: http::status::InvalidStatusCode) -> (r: Parse) {
        Parse::Status
    }
}

impl vstd::std_specs::convert::FromSpecImpl<http::status::InvalidStatusCode> for Parse {
    open spec fn obeys_from_spec() -> bool {
        true
    }

    open spec fn from_spec(v: http::status::InvalidStatusCode) -> Parse {
        Parse::Status
    }
}

impl From<http::uri::InvalidUri> for Parse {
    fn from(_err: http::uri::InvalidUri) -> (r: Parse) {
        Parse::Uri
    }
}

impl vstd::std_specs::convert::FromSpecImpl<http::uri::InvalidUri> for Parse {
    open spec fn obeys_from_spec() -> bool {
        true
    }

    open spec fn from_spec(v: http::uri::InvalidUri) -> Parse {
        Parse::Uri
    }
}

impl From<http::uri::InvalidUriParts> for Parse {
    fn from(_err: http::uri::InvalidUriParts) -> (r: Parse) {
        Parse::Uri
    }
}

impl vstd::std_specs::convert::FromSpecImpl<http::uri::InvalidUriParts> for Parse {
    open spec fn obeys_from_spec() -> bool {
        true
    }

    open spec fn from_spec(v: http::uri::InvalidUriParts) -> Parse {
        Parse::Uri
    }
}

// ----- laws -----

/// An error that is handed on as the cause of another keeps the HTTP/2 error code
/// that it is answered with.
pub proof fn law_h2_code_survives_wrapping(kind: Kind, chain: Seq<Link>)
    ensures
        chain_h2_code(seq![Link::Hyper(kind)] + chain) == chain_h2_code(chain),
{
    let wrapped = seq![Link::Hyper(kind)] + chain;
    assert(wrapped.skip(1) =~= chain);
    assert(first_h2(wrapped) == 1 + first_h2(chain));
    let i = first_h2(chain) as int;
    if i < chain.len() {
        assert(wrapped[i + 1] == chain[i]);
    }
}

/// An error that is handed on as the cause of another stays a timeout if a timeout
/// caused it.
pub proof fn law_timeout_survives_wrapping(kind: Kind, chain: Seq<Link>, i: int)
    requires
        0 <= i < chain.len(),
        link_is_timeout(chain[i]),
    ensures
        exists|j: int|
            0 <= j < chain.len() + 1 && link_is_timeout(
                #[trigger] (seq![Link::Hyper(kind)] + chain)[j],
            ),
{
    let wrapped = seq![Link::Hyper(kind)] + chain;
    assert(wrapped[i + 1] == chain[i]);
    assert(link_is_timeout(wrapped[i + 1]));
}

/// The code to answer with is that of the first error of the HTTP/2 layer in the chain;
/// it is 2 (INTERNAL_ERROR) where that one has none, and where there is no such error.
/// Errors before it that are not of that layer are passed over.
pub proof fn law_code_to_answer_with(link: Link, chain: Seq<Link>)
    ensures
        chain_h2_code(Seq::empty()) == 2,
        link is H2 ==> chain_h2_code(seq![link] + chain) == (match h2_error_code(link->H2_0) {
            Some(code) => code,
            None => 2u32,
        }),
        !(link is H2) ==> chain_h2_code(seq![link] + chain) == chain_h2_code(chain),
{
    let more = seq![link] + chain;
    assert(more.skip(1) =~= chain);
    if !(link is H2) {
        let i = first_h2(chain) as int;
        assert(first_h2(more) == i + 1);
        if i < chain.len() {
            assert(more[i + 1] == chain[i]);
        }
    }
}

/// Only the mark of a timeout is one.
pub proof fn law_timeouts_are_marked(link: Link)
    ensures
        link_is_timeout(link) <==> link == Link::TimedOut(TimedOut),
{
}

/// The faults of the HTTP/1 parser: a bad status and a bad version are what they say, too
/// many headers make a message too large, and all others are faults of a header.
pub proof fn law_parser_faults(fault: ParserFault)
    ensures
        Parse::spec_of_fault(fault) == Parse::Status <==> fault == ParserFault::Status,
        Parse::spec_of_fault(fault) == Parse::Version <==> fault == ParserFault::Version,
        Parse::spec_of_fault(fault) == Parse::TooLarge <==> fault == ParserFault::TooManyHeaders,
        Parse::spec_of_fault(fault) == Parse::Header(Header::Token) <==> fault == ParserFault::Name
            || fault == ParserFault::Value || fault == ParserFault::NewLine || fault
            == ParserFault::Token,
{
}

/// An error without a cause has none, and one with a message has that one alone.
pub proof fn law_causes_of_errors(err: Error, kind: Kind, text: Seq<char>)
    ensures
        err.is_bare(kind) <==> err.spec_kind() == kind && err.chain().len() == 0,
        err.says(kind, text) <==> err.spec_kind() == kind && err.chain().len() == 1
            && err.chain()[0] is Message && err.chain()[0]->Message_0@ == text,
{
    if err.chain().len() == 0 {
        assert(err.chain() =~= Seq::<Link>::empty());
    }
}

/// What parsing with another crate failed on is what the error says: a method, a status
/// or an URI.
pub proof fn law_outside_parse_errors(
    method: http::method::InvalidMethod,
    status: http::status::InvalidStatusCode,
    uri: http::uri::InvalidUri,
    parts: http::uri::InvalidUriParts,
    parser: httparse::Error,
)
    ensures
        <Parse as FromSpec<http::method::InvalidMethod>>::from_spec(method) == Parse::Method,
        <Parse as FromSpec<http::status::InvalidStatusCode>>::from_spec(status) == Parse::Status,
        <Parse as FromSpec<http::uri::InvalidUri>>::from_spec(uri) == Parse::Uri,
        <Parse as FromSpec<http::uri::InvalidUriParts>>::from_spec(parts) == Parse::Uri,
        <Parse as FromSpec<httparse::Error>>::from_spec(parser) == Parse::Status
            <==> parser_fault_of(parser) == ParserFault::Status,
        <Parse as FromSpec<httparse::Error>>::from_spec(parser) == Parse::TooLarge
            <==> parser_fault_of(parser) == ParserFault::TooManyHeaders,
        <Parse as FromSpec<httparse::Error>>::from_spec(parser) == Parse::Version
            <==> parser_fault_of(parser) == ParserFault::Version,
{
}

/// A header that took too long is a timeout, and so is every error with the mark of one
/// anywhere among its causes; no other error is.
pub proof fn law_timeouts(kind: Kind, link: Link, chain: Seq<Link>)
    ensures
        timed_out(kind, Seq::empty()) <==> kind == Kind::HeaderTimeout,
        timed_out(kind, seq![link] + chain) <==> link == Link::TimedOut(TimedOut) || timed_out(
            kind,
            chain,
        ),
{
    let more = seq![link] + chain;
    if timed_out(kind, more) && kind != Kind::HeaderTimeout {
        let i = choose|i: int| 0 <= i < more.len() && link_is_timeout(#[trigger] more[i]);
        if i > 0 {
            assert(chain[i - 1] == more[i]);
            assert(link_is_timeout(chain[i - 1]));
        }
    }
    if timed_out(kind, chain) && kind != Kind::HeaderTimeout {
        let i = choose|i: int| 0 <= i < chain.len() && link_is_timeout(#[trigger] chain[i]);
        assert(more[i + 1] == chain[i]);
        assert(link_is_timeout(more[i + 1]));
    }
    if link == Link::TimedOut(TimedOut) {
        assert(link_is_timeout(more[0]));
    }
}

/// Of all that can go wrong, only a head that is too large and an URI that is too long
/// make a message too large.
pub proof fn law_too_large(kind: Kind)
    ensures
        kind_is_too_large(kind) <==> kind == Kind::Parse(Parse::TooLarge) || kind == Kind::Parse(
            Parse::UriTooLong,
        ),
        kind_is_too_large(kind) ==> kind is Parse,
{
}

} // verus!
