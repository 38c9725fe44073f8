//! The closed set of request methods, parsed from a case-sensitive token.

use vstd::prelude::*;
use crate::scan::str_eq;

verus! {

/// An HTTP request method.  Values exist only by parsing a token that spells
/// one of the canonical verbs exactly; there is no default variant.
#[derive(Clone, Copy, Debug, PartialEq, Eq, Structural)]
pub enum Method {
    Get,
    Post,
    Put,
    Delete,
    Head,
    Connect,
    Options,
    Trace,
    Patch,
}

/// Error returned when a token does not spell any recognized verb.
#[derive(Clone, Copy, Debug, PartialEq, Eq, Structural)]
pub struct MethodError;

/// The method whose canonical spelling is `t`, if any.  Matching is exact and
/// case-sensitive.
pub open spec fn method_of_token(t: Seq<char>) -> Option<Method> {
    if t == "GET"@ {
        Some(Method::Get)
    } else if t == "POST"@ {
        Some(Method::Post)
    } else if t == "PUT"@ {
        Some(Method::Put)
    } else if t == "DELETE"@ {
        Some(Method::Delete)
    } else if t == "HEAD"@ {
        Some(Method::Head)
    } else if t == "CONNECT"@ {
        Some(Method::Connect)
    } else if t == "OPTIONS"@ {
        Some(Method::Options)
    } else if t == "TRACE"@ {
        Some(Method::Trace)
    } else if t == "PATCH"@ {
        Some(Method::Patch)
    } else {
        None
    }
}

impl Method {
    /// Parses a token into a method; any token that is not a canonical verb
    /// spelling is rejected.
    pub fn from_str(s: &str) -> (r: Result<Method, MethodError>)
        ensures
            match r {
                Ok(m) => method_of_token(s@) == Some(m),
                Err(_) => method_of_token(s@) is None,
            },
    {
        if str_eq(s, "GET") {
            Ok(Method::Get)
        } else if str_eq(s, "POST") {
            Ok(Method::Post)
        } else if str_eq(s, "PUT") {
            Ok(Method::Put)
        } else if str_eq(s, "DELETE") {
            Ok(Method::Delete)
        } else if str_eq(s, "HEAD") {
            Ok(Method::Head)
        } else if str_eq(s, "CONNECT") {
            Ok(Method::Connect)
        } else if str_eq(s, "OPTIONS") {
            Ok(Method::Options)
        } else if str_eq(s, "TRACE") {
            Ok(Method::Trace)
        } else if str_eq(s, "PATCH") {
            Ok(Method::Patch)
        } else {
            Err(MethodError)
        }
    }
}

} // verus!
