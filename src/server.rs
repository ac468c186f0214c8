//! The handler capability and the per-connection pipeline.
use vstd::prelude::*;

use crate::request::{ParseError, Request};
use crate::response::Response;
use crate::status_code::StatusCode;

verus! {

/// Turns parsed requests, and requests that failed to parse, into responses.
pub trait HttpRequestHandler {
    /// Answers a request that parsed.
    fn handle_request(&mut self, request: &Request) -> Response;

    /// Answers a buffer that did not parse; by default a 400 with no body.
    fn handle_bad_request(&mut self, error: &ParseError) -> (r: Response)
        default_ensures
            r.status_code == StatusCode::BadRequest,
            r.body is None,
    {
        bad_request_response(error)
    }
}

/// The default answer to a request that did not parse.
pub fn bad_request_response(error: &ParseError) -> (r: Response)
    ensures
        r.status_code == StatusCode::BadRequest,
        r.body is None,
{
    Response::new(StatusCode::BadRequest, None)
}

/// Parses `buffer` and hands the request, or the parse error, to `handler`.
pub fn dispatch<H: HttpRequestHandler>(handler: &mut H, buffer: &[u8]) -> Response {
    match Request::parse(buffer) {
        Ok(request) => handler.handle_request(&request),
        Err(error) => handler.handle_bad_request(&error),
    }
}

/// The size of the buffer that one read of a connection fills; longer
/// requests are cut at this length.
pub const READ_BUFFER_SIZE: usize = 1024;

/// A server that listens at an address.
pub struct Server {
    address: String,
}

impl Server {
    /// The address this server listens at.
    pub closed spec fn address_view(&self) -> Seq<char> {
        self.address@
    }

    /// A server for an address of the form `ip:port`.
    pub fn new(address: String) -> (r: Self)
        ensures
            r.address_view() == address@,
    {
        Self { address }
    }

    /// The address this server listens at.
    pub fn address(&self) -> (r: &str)
        ensures
            r@ == self.address_view(),
    {
        self.address.as_str()
    }
}

} // verus!
