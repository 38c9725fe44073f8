//! A minimal HTTP/1.1 request-line parser.
//!
//! The parser turns one raw byte buffer into a structured request: a method
//! drawn from a closed set of verbs, a path, and an optional query-string
//! mapping, all borrowing from the input buffer.  Every way a parse can fail
//! is classified by a closed error taxonomy.  A thin server front end
//! (socket handling, reading, writing) lives outside this library and hands
//! buffers in through the parser.

pub mod method;
pub mod query_string;
pub mod request;
pub mod response;
pub mod scan;
pub mod server;
