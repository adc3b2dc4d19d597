//! Informational responses.

use http::header::HeaderMap;
use http::{StatusCode, Version};
use vstd::prelude::*;

use crate::outside::http_crate::{
    headers_of, response_code, response_head, response_headers, response_status, response_version,
    response_version_of, status_number, version_number,
};

verus! {

/// An informational response, to be looked at.
#[derive(Debug)]
pub struct Response<'a>(&'a http::Response<()>);

impl<'a> Response<'a> {
    /// The response behind it.
    pub closed spec fn inner(&self) -> http::Response<()> {
        *self.0
    }

    /// Looks at a response.
    pub fn new(res: &'a http::Response<()>) -> (r: Response<'a>)
        ensures
            r.inner() == *res,
    {
        Response(res)
    }

    /// The status of the response.
    pub fn status(&self) -> (status: StatusCode)
        ensures
            status_number(status) == response_code(self.inner()),
    {
        response_status(self.0)
    }

    /// The HTTP version of the response.
    pub fn version(&self) -> (version: Version)
        ensures
            version_number(version) == response_version_of(self.inner()),
    {
        response_version(self.0)
    }

    /// The headers of the response.
    pub fn headers(&self) -> (headers: &HeaderMap)
        ensures
            headers_of(*headers) == response_headers(self.inner()),
    {
        response_head(self.0)
    }
}

} // verus!
