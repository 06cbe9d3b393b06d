//! The dispatch boundary and the per-buffer step of the serving loop.
//! The socket loop itself is outside this crate; it reads a buffer,
//! hands it here, and writes the returned bytes back.

use vstd::prelude::*;
use vstd::utf8::encode_utf8;
use crate::request::{ParseError, Request};
use crate::response::Response;
use crate::status_code::StatusCode;

verus! {

/// The dispatch boundary: consumes a decoded request and produces a
/// response. `handle_bad_request` carries a default — a bodiless
/// `BadRequest` response — which implementers may override.
pub trait Handler {
    /// The application's answer to a decoded request.
    fn handle_request(&mut self, request: &Request) -> Response;

    /// The answer to a buffer that failed to decode: by default a
    /// `BadRequest` response with no body, for every error value.
    fn handle_bad_request(&mut self, error: &ParseError) -> (r: Response)
        default_ensures
            r.spec_status() == StatusCode::BadRequest,
            r.spec_body() is None,
    {
        Response::new(StatusCode::BadRequest, None)
    }
}

/// The server: the listen address an outside socket loop binds to.
pub struct Server {
    addr: String,
}

impl Server {
    /// The listen address.
    pub closed spec fn spec_addr(self) -> Seq<char> {
        self.addr@
    }

    /// Builds a server on the given listen address.
    pub fn new(addr: String) -> (r: Server)
        ensures
            r.spec_addr() == addr@,
    {
        Server { addr }
    }

    /// The listen address.
    pub fn addr(&self) -> (r: &str)
        ensures
            r@ == self.spec_addr(),
    {
        self.addr.as_str()
    }
}

/// One step of the serving loop: decodes a received buffer, dispatches
/// it — the decoded request to `handle_request`, the decode error to
/// `handle_bad_request` — and returns the wire bytes of the response
/// the handler chose. Whatever the handler answers, the bytes are the
/// full rendering of a single response.
pub fn handle_buffer<H: Handler>(handler: &mut H, buffer: &[u8]) -> (out: Vec<u8>)
    ensures
        exists|resp: Response| out@ == encode_utf8(resp.rendered()),
{
    let response = match Request::try_from(buffer) {
        Ok(request) => handler.handle_request(&request),
        Err(e) => handler.handle_bad_request(&e),
    };
    let mut out: Vec<u8> = Vec::new();
    response.send(&mut out);
    proof {
        assert(out@ == encode_utf8(response.rendered()));
    }
    out
}

} // verus!
