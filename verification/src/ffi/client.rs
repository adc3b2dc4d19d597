//! Connections of the C interface.

use http::{Request, Response};
use vstd::prelude::*;

use crate::body::incoming::Incoming;
use crate::client::conn::{http1, http2};
use crate::client::dispatch::Promise;
use crate::error::Result;
use crate::ffi::error::hyper_code;
use crate::outside::httparse_crate::{leniency_of, ParserLeniency};

verus! {

/// The options of a connection.
#[derive(Debug, Clone, Copy, PartialEq, Eq, Structural)]
pub struct hyper_clientconn_options {
    pub http1_allow_obsolete_multiline_headers_in_responses: bool,
    pub http1_preserve_header_case: bool,
    pub http1_preserve_header_order: bool,
    pub http2: bool,
}

/// A connection.
pub struct hyper_clientconn {
    pub tx: Tx,
}

/// The side of a connection that sends requests.
pub enum Tx {
    Http1(http1::SendRequest<Incoming>),
    Http2(http2::SendRequest<Incoming>),
}

/// What the task of a new connection starts from.
pub enum ConnSetup {
    Http1(http1::Setup<Incoming>),
    Http2(http2::Setup<Incoming, (), ()>),
}

impl hyper_clientconn_options {
    /// The options that nobody has set.
    pub fn new() -> (r: hyper_clientconn_options)
        ensures
            r == (hyper_clientconn_options {
                http1_allow_obsolete_multiline_headers_in_responses: false,
                http1_preserve_header_case: false,
                http1_preserve_header_order: false,
                http2: false,
            }),
    {
        hyper_clientconn_options {
            http1_allow_obsolete_multiline_headers_in_responses: false,
            http1_preserve_header_case: false,
            http1_preserve_header_order: false,
            http2: false,
        }
    }

    /// Whether the case of header names is kept: 0 for no.
    pub fn set_preserve_header_case(&mut self, enabled: i32)
        ensures
            *final(self) == (hyper_clientconn_options {
                http1_preserve_header_case: enabled != 0,
                ..*old(self)
            }),
    {
        self.http1_preserve_header_case = enabled != 0;
    }

    /// Whether the order of headers is kept: 0 for no.
    pub fn set_preserve_header_order(&mut self, enabled: i32)
        ensures
            *final(self) == (hyper_clientconn_options {
                http1_preserve_header_order: enabled != 0,
                ..*old(self)
            }),
    {
        self.http1_preserve_header_order = enabled != 0;
    }

    /// Whether HTTP/2 is used: 0 for no.
    pub fn set_http2(&mut self, enabled: i32) -> (code: hyper_code)
        ensures
            code == hyper_code::HYPERE_OK,
            *final(self) == (hyper_clientconn_options { http2: enabled != 0, ..*old(self) }),
    {
        self.http2 = enabled != 0;
        hyper_code::HYPERE_OK
    }

    /// Whether header values may go on in the next line: 0 for no.
    pub fn set_http1_allow_multiline_headers(&mut self, enabled: i32) -> (code: hyper_code)
        ensures
            code == hyper_code::HYPERE_OK,
            *final(self) == (hyper_clientconn_options {
                http1_allow_obsolete_multiline_headers_in_responses: enabled != 0,
                ..*old(self)
            }),
    {
        self.http1_allow_obsolete_multiline_headers_in_responses = enabled != 0;
        hyper_code::HYPERE_OK
    }

    /// The options of an HTTP/1 connection.
    pub open spec fn http1_options(&self) -> http1::Options {
        http1::Options {
            parser: ParserLeniency {
                obsolete_multiline_headers:
                    self.http1_allow_obsolete_multiline_headers_in_responses,
                ..http1::Options::unset().parser
            },
            preserve_header_case: self.http1_preserve_header_case,
            preserve_header_order: self.http1_preserve_header_order,
            ..http1::Options::unset()
        }
    }

    /// Sets an HTTP/1 connection up.
    pub fn http1_builder(&self) -> (r: http1::Builder)
        ensures
            r@ == self.http1_options(),
    {
        let mut builder = http1::Builder::new();
        builder.allow_obsolete_multiline_headers_in_responses(
            self.http1_allow_obsolete_multiline_headers_in_responses,
        ).preserve_header_case(self.http1_preserve_header_case).preserve_header_order(
            self.http1_preserve_header_order,
        );
        builder
    }

    /// A new connection, of HTTP/2 where the options say so, and what its task
    /// starts from.
    pub fn handshake(self) -> (r: (hyper_clientconn, ConnSetup))
        ensures
            self.http2 ==> {
                &&& r.0.tx is Http2
                &&& r.1 is Http2
                &&& r.1->Http2_0.served_by(r.0.tx->Http2_0.sender())
                &&& r.1->Http2_0.config.is_unset()
                &&& r.1->Http2_0.requests.wf()
                &&& !r.1->Http2_0.requests.is_closed()
            },
            !self.http2 ==> {
                &&& r.0.tx is Http1
                &&& !r.0.tx->Http1_0.has_sent()
                &&& r.1 is Http1
                &&& r.0.tx->Http1_0.sender().feeds(r.1->Http1_0.requests)
                &&& r.1->Http1_0.settings@ == http1::settings_of(self.http1_options())
                &&& leniency_of(r.1->Http1_0.parser_config) == self.http1_options().parser
                &&& r.1->Http1_0.requests.wf()
                &&& !r.1->Http1_0.requests.is_closed()
            },
    {
        if self.http2 {
            let builder: http2::Builder<(), ()> = http2::Builder::new(());
            let (tx, setup) = builder.handshake();
            (hyper_clientconn { tx: Tx::Http2(tx) }, ConnSetup::Http2(setup))
        } else {
            let builder = self.http1_builder();
            let (tx, setup) = builder.handshake();
            (hyper_clientconn { tx: Tx::Http1(tx) }, ConnSetup::Http1(setup))
        }
    }
}

impl hyper_clientconn {
    /// Handing a request to the connection can come to this, and makes another of it.
    pub open spec fn sends(
        &self,
        after: hyper_clientconn,
        req: Request<Incoming>,
        sent: std::result::Result<Promise<Response<Incoming>>, Request<Incoming>>,
    ) -> bool {
        match self.tx {
            Tx::Http1(tx) => after.tx is Http1 && tx.sender().sends(
                after.tx->Http1_0.sender(),
                req,
                sent,
            ),
            Tx::Http2(tx) => after == *self && tx.sender().sends(req, sent),
        }
    }

    /// Sends a request, whose response is then waited for.
    pub fn send(&mut self, req: Request<Incoming>) -> (r: Result<Promise<Response<Incoming>>>)
        ensures
            exists|
                sent: std::result::Result<Promise<Response<Incoming>>, Request<Incoming>>,
            | #[trigger]
                old(self).sends(*final(self), req, sent) && http1::promised_is(sent, r),
    {
        let ghost mut sent: std::result::Result<Promise<Response<Incoming>>, Request<Incoming>> =
            Err(req);
        let r = match &mut self.tx {
            Tx::Http1(tx) => {
                let ghost before = *tx;
                let r = tx.send_request(req);
                proof {
                    sent = choose|
                        sent: std::result::Result<Promise<Response<Incoming>>, Request<Incoming>>,
                    | #[trigger]
                        before.sender().sends(tx.sender(), req, sent) && http1::promised_is(
                            sent,
                            r,
                        );
                }
                r
            },
            Tx::Http2(tx) => {
                let ghost before = *tx;
                let r = tx.send_request(req);
                proof {
                    sent = choose|
                        sent: std::result::Result<Promise<Response<Incoming>>, Request<Incoming>>,
                    | #[trigger]
                        before.sender().sends(req, sent) && http1::promised_is(sent, r);
                }
                r
            },
        };
        assert(old(self).sends(*self, req, sent));
        r
    }
}

/// Each option of the application sets what it says on an HTTP/1 connection, and no
/// other setting is made.
pub proof fn law_options_reach_the_connection(o: hyper_clientconn_options)
    ensures
        http1::settings_of(o.http1_options()).contains(http1::Setting::PreserveHeaderCase)
            <==> o.http1_preserve_header_case,
        http1::settings_of(o.http1_options()).contains(http1::Setting::PreserveHeaderOrder)
            <==> o.http1_preserve_header_order,
        http1::settings_of(o.http1_options()).len() == (if o.http1_preserve_header_case {
            1nat
        } else {
            0nat
        }) + (if o.http1_preserve_header_order {
            1nat
        } else {
            0nat
        }),
        o.http1_options().parser.obsolete_multiline_headers
            == o.http1_allow_obsolete_multiline_headers_in_responses,
        !o.http1_options().parser.spaces_after_header_name,
        !o.http1_options().parser.invalid_headers,
{
    http1::law_each_option_sets_its_own(o.http1_options(), 0);
    http1::law_each_setting_comes_once(o.http1_options());
}

} // verus!
