//! Parsing one HTTP/1.1 request line out of a raw byte buffer.
//!
//! The buffer is decoded as UTF-8, split into three tokens (method, path,
//! protocol) at spaces and carriage returns, the protocol is checked to be
//! exactly `HTTP/1.1`, the method token is matched against the closed verb
//! set, and the path is split at its first `?` into the path proper and the
//! query string.  The first failing step classifies the whole parse.

use vstd::prelude::*;
use vstd::utf8::{valid_utf8, decode_utf8, encode_utf8, encode_utf8_decode_utf8};
use crate::method::{Method, MethodError, method_of_token};
use crate::query_string::{QueryString, QueryValueView, spec_query_string};
use crate::scan::{first_in, pair_set, find_first_of, str_eq};

verus! {

/// The token delimiters of a request line: space and carriage return, the
/// first occurrence of either ends a token.
pub open spec fn token_delimiters() -> Set<char> {
    pair_set(' ', '\r')
}

/// The path/query separator `?` as a character set.
pub open spec fn question_mark_set() -> Set<char> {
    pair_set('?', '?')
}

/// The token before the first delimiter of `s` and the text after it, or
/// `None` when `s` holds no delimiter.
pub open spec fn next_word(s: Seq<char>) -> Option<(Seq<char>, Seq<char>)> {
    let i = first_in(s, token_delimiters());
    if 0 <= i < s.len() {
        Some((s.subrange(0, i), s.subrange(i + 1, s.len() as int)))
    } else {
        None
    }
}

/// Every way a parse can fail, each one exactly once.
#[derive(Clone, Copy, Debug, PartialEq, Eq, Structural)]
pub enum ParseError {
    /// The request line ran out before three tokens were found.
    InvalidRequest,
    /// The buffer is not valid UTF-8 text.
    InvalidEncoding,
    /// The protocol token is present but is not exactly `HTTP/1.1`.
    InvalidProtocol,
    /// The method token spells no recognized verb.
    InvalidMethod,
}

impl ParseError {
    /// The fixed human-readable message for this error kind.
    pub fn message(&self) -> (r: &str)
        ensures
            match self {
                ParseError::InvalidRequest => r@ == "Invalid Request"@,
                ParseError::InvalidEncoding => r@ == "Invalid Encoding"@,
                ParseError::InvalidProtocol => r@ == "Invalid Protocol"@,
                ParseError::InvalidMethod => r@ == "Invalid Method"@,
            },
    {
        match self {
            ParseError::InvalidRequest => "Invalid Request",
            ParseError::InvalidEncoding => "Invalid Encoding",
            ParseError::InvalidProtocol => "Invalid Protocol",
            ParseError::InvalidMethod => "Invalid Method",
        }
    }
}

impl From<MethodError> for ParseError {
    /// A rejected method token surfaces as `InvalidMethod`.
    fn from(_e: MethodError) -> (r: Self) {
        ParseError::InvalidMethod
    }
}

impl vstd::std_specs::convert::FromSpecImpl<MethodError> for ParseError {
    open spec fn obeys_from_spec() -> bool {
        true
    }

    open spec fn from_spec(_e: MethodError) -> Self {
        ParseError::InvalidMethod
    }
}

/// What one successfully parsed request line holds, mathematically: the path
/// with `?` and everything after it stripped, the query-string entries when a
/// `?` occurred, and the method.
pub struct RequestView {
    pub path: Seq<char>,
    pub query_string: Option<Seq<(Seq<char>, QueryValueView)>>,
    pub method: Method,
}

/// The parse of a request-line text, scanning left to right with no
/// backtracking: three tokens, the protocol check, the method check, then the
/// path split at its first `?`.
pub open spec fn spec_parse_chars(t: Seq<char>) -> Result<RequestView, ParseError> {
    match next_word(t) {
        Option::None => Err(ParseError::InvalidRequest),
        Option::Some((method_tok, rest1)) => match next_word(rest1) {
            Option::None => Err(ParseError::InvalidRequest),
            Option::Some((path_tok, rest2)) => match next_word(rest2) {
                Option::None => Err(ParseError::InvalidRequest),
                Option::Some((protocol_tok, _)) => if protocol_tok != "HTTP/1.1"@ {
                    Err(ParseError::InvalidProtocol)
                } else {
                    match method_of_token(method_tok) {
                        Option::None => Err(ParseError::InvalidMethod),
                        Option::Some(m) => {
                            let q = first_in(path_tok, question_mark_set());
                            if 0 <= q < path_tok.len() {
                                Ok(RequestView {
                                    path: path_tok.subrange(0, q),
                                    query_string: Some(spec_query_string(
                                        path_tok.subrange(q + 1, path_tok.len() as int),
                                    )),
                                    method: m,
                                })
                            } else {
                                Ok(RequestView { path: path_tok, query_string: None, method: m })
                            }
                        },
                    }
                },
            },
        },
    }
}

/// The parse of a raw byte buffer: decoding comes first, so a buffer that is
/// not UTF-8 fails with `InvalidEncoding` before any tokenization.
pub open spec fn spec_parse(bytes: Seq<u8>) -> Result<RequestView, ParseError> {
    if valid_utf8(bytes) {
        spec_parse_chars(decode_utf8(bytes))
    } else {
        Err(ParseError::InvalidEncoding)
    }
}

/// Relies on std::str::from_utf8: it succeeds exactly on valid UTF-8 input,
/// and the returned string slice views those same bytes.
#[verifier::external_body]
fn utf8_str(buf: &[u8]) -> (r: Option<&str>)
    ensures
        r is Some <==> valid_utf8(buf@),
        r matches Some(s) ==> encode_utf8(s@) == buf@,
{
    match std::str::from_utf8(buf) {
        Ok(s) => Some(s),
        Err(_) => None,
    }
}

/// Splits `request` at the first space or carriage return: the token before
/// it and the remainder after it, or `None` when neither occurs.
pub fn get_next_word<'a>(request: &'a str) -> (r: Option<(&'a str, &'a str)>)
    ensures
        match r {
            Some(w) => next_word(request@) == Some((w.0@, w.1@)),
            None => next_word(request@) is None,
        },
{
    let n = request.unicode_len();
    match find_first_of(request, ' ', '\r') {
        Some(i) => {
            let token = request.substring_char(0, i);
            let rest = request.substring_char(i + 1, n);
            Some((token, rest))
        },
        None => None,
    }
}

/// One parsed request line: the path (with `?` and everything after it
/// stripped), the query-string mapping when a `?` occurred, and the method.
/// All string data borrows from the buffer the request was parsed from.
#[derive(Debug)]
pub struct Request<'buf> {
    path: &'buf str,
    query_string: Option<QueryString<'buf>>,
    method: Method,
}

impl<'buf> View for Request<'buf> {
    type V = RequestView;

    closed spec fn view(&self) -> RequestView {
        RequestView {
            path: self.path@,
            query_string: match self.query_string {
                Option::Some(q) => Some(q@),
                Option::None => None,
            },
            method: self.method,
        }
    }
}

impl<'buf> Request<'buf> {
    /// The path, which never contains a `?`.
    pub fn path(&self) -> (r: &str)
        ensures
            r@ == self@.path,
    {
        self.path
    }

    /// The parsed method.
    pub fn method(&self) -> (r: &Method)
        ensures
            *r == self@.method,
    {
        &self.method
    }

    /// The query-string mapping, present exactly when the raw path held a `?`.
    pub fn query_string(&self) -> (r: Option<&QueryString<'buf>>)
        ensures
            match r {
                Some(q) => self@.query_string == Some(q@),
                None => self@.query_string is None,
            },
    {
        self.query_string.as_ref()
    }

    /// Parses one request line out of `buf`, yielding exactly what
    /// [`spec_parse`] assigns to the bytes: a request borrowing from `buf`,
    /// or the error classifying the first failing step.
    pub fn try_from(buf: &'buf [u8]) -> (r: Result<Request<'buf>, ParseError>)
        ensures
            match r {
                Ok(req) => spec_parse(buf@) == Ok::<RequestView, ParseError>(req@),
                Err(e) => spec_parse(buf@) == Err::<RequestView, ParseError>(e),
            },
    {
        let request_text = match utf8_str(buf) {
            Some(s) => s,
            None => {
                return Err(ParseError::InvalidEncoding);
            },
        };
        proof {
            encode_utf8_decode_utf8(request_text@);
        }
        let (method_tok, rest1) = match get_next_word(request_text) {
            Some(w) => w,
            None => {
                return Err(ParseError::InvalidRequest);
            },
        };
        let (path_tok, rest2) = match get_next_word(rest1) {
            Some(w) => w,
            None => {
                return Err(ParseError::InvalidRequest);
            },
        };
        let (protocol_tok, _rest3) = match get_next_word(rest2) {
            Some(w) => w,
            None => {
                return Err(ParseError::InvalidRequest);
            },
        };
        if !str_eq(protocol_tok, "HTTP/1.1") {
            return Err(ParseError::InvalidProtocol);
        }
        let method = match Method::from_str(method_tok) {
            Ok(m) => m,
            Err(e) => {
                return Err(ParseError::from(e));
            },
        };
        match find_first_of(path_tok, '?', '?') {
            Some(i) => {
                let n = path_tok.unicode_len();
                let query = QueryString::from(path_tok.substring_char(i + 1, n));
                let path = path_tok.substring_char(0, i);
                Ok(Request { path, query_string: Some(query), method })
            },
            None => Ok(Request { path: path_tok, query_string: None, method }),
        }
    }
}

/// Parsing is a pure function of the input bytes: any two parses of equal
/// buffers yield equal outcomes, so re-parsing the same immutable buffer can
/// never change the result.
pub proof fn lemma_parse_deterministic(
    bytes: Seq<u8>,
    r1: Result<RequestView, ParseError>,
    r2: Result<RequestView, ParseError>,
)
    requires
        r1 == spec_parse(bytes),
        r2 == spec_parse(bytes),
    ensures
        r1 == r2,
{
}

/// Every request-line text of the plain form `GET <path> HTTP/1.1\r...`,
/// whose path holds no space, carriage return or question mark, parses to
/// method `GET`, exactly that path, and no query string.
pub proof fn lemma_parse_plain_get(p: Seq<char>, rest: Seq<char>)
    requires
        forall|i: int| 0 <= i < p.len() ==> p[i] != ' ' && p[i] != '\r' && p[i] != '?',
    ensures
        ({
            let t = "GET "@ + p + " HTTP/1.1\r"@ + rest;
            &&& spec_parse_chars(t) is Ok
            &&& (spec_parse_chars(t)->Ok_0).method == Method::Get
            &&& (spec_parse_chars(t)->Ok_0).path == p
            &&& (spec_parse_chars(t)->Ok_0).query_string is None
        }),
{
    reveal_strlit("GET ");
    reveal_strlit(" HTTP/1.1\r");
    reveal_strlit("GET");
    reveal_strlit("HTTP/1.1");
    let t = "GET "@ + p + " HTTP/1.1\r"@ + rest;
    assert(t[0] == 'G' && t[1] == 'E' && t[2] == 'T' && t[3] == ' ');
    crate::scan::lemma_first_in_at(t, token_delimiters(), 3);
    let method_tok = t.subrange(0, 3);
    let r1 = t.subrange(4, t.len() as int);
    assert(next_word(t) == Some((method_tok, r1)));
    assert(method_tok =~= "GET"@);
    assert(r1 =~= p + " HTTP/1.1\r"@ + rest);
    assert forall|j: int| 0 <= j < p.len() implies !token_delimiters().contains(
        #[trigger] r1[j],
    ) by {
        assert(r1[j] == p[j]);
    }
    assert(r1[p.len() as int] == ' ');
    crate::scan::lemma_first_in_at(r1, token_delimiters(), p.len() as int);
    let path_tok = r1.subrange(0, p.len() as int);
    let r2 = r1.subrange(p.len() as int + 1, r1.len() as int);
    assert(next_word(r1) == Some((path_tok, r2)));
    assert(path_tok =~= p);
    assert(r2.len() == 9 + rest.len());
    assert forall|j: int| 0 <= j < 8 implies !token_delimiters().contains(#[trigger] r2[j]) by {
        assert(r2[j] == (" HTTP/1.1\r"@)[j + 1]);
    }
    assert(r2[8] == (" HTTP/1.1\r"@)[9]);
    assert(r2[8] == '\r');
    crate::scan::lemma_first_in_at(r2, token_delimiters(), 8);
    let protocol_tok = r2.subrange(0, 8);
    assert forall|j: int| 0 <= j < 8 implies protocol_tok[j] == ("HTTP/1.1"@)[j] by {
        assert(protocol_tok[j] == r2[j]);
        assert(r2[j] == (" HTTP/1.1\r"@)[j + 1]);
    }
    assert(protocol_tok =~= "HTTP/1.1"@);
    assert(method_of_token(method_tok) == Some(Method::Get));
    assert forall|j: int| 0 <= j < path_tok.len() implies !question_mark_set().contains(
        #[trigger] path_tok[j],
    ) by {
        assert(path_tok[j] == p[j]);
    }
    crate::scan::lemma_first_in_none(path_tok, question_mark_set());
}

/// The path of a successfully parsed request never contains a `?`: if the
/// path token held one, the path was truncated at the first occurrence.
pub proof fn lemma_path_has_no_question_mark(bytes: Seq<u8>)
    ensures
        spec_parse(bytes) matches Ok(req) ==> forall|i: int|
            0 <= i < req.path.len() ==> req.path[i] != '?',
{
    if spec_parse(bytes) is Ok {
        let req = spec_parse(bytes)->Ok_0;
        let t = decode_utf8(bytes);
        let rest1 = (next_word(t)->0).1;
        let path_tok = (next_word(rest1)->0).0;
        crate::scan::lemma_first_in_props(path_tok, question_mark_set());
        let q = first_in(path_tok, question_mark_set());
        assert forall|i: int| 0 <= i < req.path.len() implies req.path[i] != '?' by {
            if 0 <= q < path_tok.len() {
                assert(req.path[i] == path_tok[i]);
                assert(!question_mark_set().contains(path_tok[i]));
            } else {
                assert(req.path[i] == path_tok[i]);
                assert(!question_mark_set().contains(path_tok[i]));
            }
        }
    }
}

} // verus!
