//! The server's verified surface: the address it is created with, and the
//! handler capability that requests and parse failures are dispatched to.
//! The accept-read-dispatch-write loop itself does socket I/O and lives in
//! the unverified front end, which reads the address back through
//! [`Server::addr`].

use vstd::prelude::*;
use crate::request::{ParseError, Request};
use crate::response::{Response, StatusCode};

verus! {

/// What consumes parsed requests: one required operation for a good request,
/// and an overridable default for a request that failed to parse.
pub trait Handler {
    /// Answers one successfully parsed request.
    fn handle_request(&mut self, request: &Request) -> Response;

    /// Answers one request that failed to parse; by default a bare
    /// `Bad Request` with no body, the same for every error kind, leaking
    /// nothing of the parser's state.  An implementor may override it freely.
    fn handle_bad_request(&mut self, _e: &ParseError) -> (r: Response)
        default_ensures
            r.status_code() == StatusCode::BadRequest,
            r.body() is None,
    {
        Response::new(StatusCode::BadRequest, None)
    }
}

/// A server, reduced to the address it will listen on.
pub struct Server {
    addr: String,
}

impl View for Server {
    type V = Seq<char>;

    closed spec fn view(&self) -> Seq<char> {
        self.addr@
    }
}

impl Server {
    /// Creates a server that will listen on `addr`.
    pub fn new(addr: String) -> (s: Server)
        ensures
            s@ == addr@,
    {
        Server { addr }
    }

    /// The address this server was created with.
    pub fn addr(&self) -> (r: &String)
        ensures
            r@ == self@,
    {
        &self.addr
    }
}

} // verus!
