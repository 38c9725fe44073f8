//! The value a handler answers with.  Writing a response to a connection is
//! the server front end's business, not this library's; here a response is
//! only a status and an optional body.

use vstd::prelude::*;

verus! {

/// The statuses the bundled handlers answer with.
#[derive(Clone, Copy, Debug, PartialEq, Eq, Structural)]
pub enum StatusCode {
    Success,
    BadRequest,
    NotFound,
}

impl StatusCode {
    /// The numeric status code.
    pub fn code(&self) -> (r: u16)
        ensures
            match self {
                StatusCode::Success => r == 200,
                StatusCode::BadRequest => r == 400,
                StatusCode::NotFound => r == 404,
            },
    {
        match self {
            StatusCode::Success => 200,
            StatusCode::BadRequest => 400,
            StatusCode::NotFound => 404,
        }
    }

    /// The reason phrase belonging to the status code.
    pub fn reason_phrase(&self) -> (r: &str)
        ensures
            match self {
                StatusCode::Success => r@ == "Ok"@,
                StatusCode::BadRequest => r@ == "Bad Request"@,
                StatusCode::NotFound => r@ == "Not Found"@,
            },
    {
        match self {
            StatusCode::Success => "Ok",
            StatusCode::BadRequest => "Bad Request",
            StatusCode::NotFound => "Not Found",
        }
    }
}

/// A handler's answer to one request.
#[derive(Debug)]
pub struct Response {
    status_code: StatusCode,
    body: Option<String>,
}

impl Response {
    /// Bundles a status and an optional body into a response.
    pub fn new(status_code: StatusCode, body: Option<String>) -> (r: Response)
        ensures
            r.status_code() == status_code,
            r.body() == body,
    {
        Response { status_code, body }
    }

    /// The status this response carries.
    pub closed spec fn status_code(&self) -> StatusCode {
        self.status_code
    }

    /// The body this response carries, if any.
    pub closed spec fn body(&self) -> Option<String> {
        self.body
    }

    /// The status this response carries.
    pub fn status(&self) -> (r: StatusCode)
        ensures
            r == self.status_code(),
    {
        self.status_code
    }

    /// The body this response carries, if any.
    pub fn body_text(&self) -> (r: Option<&String>)
        ensures
            match r {
                Some(b) => self.body() == Some(*b),
                None => self.body() is None,
            },
    {
        self.body.as_ref()
    }
}

} // verus!
