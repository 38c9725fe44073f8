use minihttp::method::Method;
use minihttp::query_string::QueryStringValue;
use minihttp::request::{ParseError, Request};

#[test]
fn plain_get_without_query() {
    let buf = b"GET /a/b HTTP/1.1\r\nHost: example.org\r\n\r\n";
    let req = Request::try_from(&buf[..]).unwrap();
    assert!(matches!(*req.method(), Method::Get));
    assert_eq!(req.path(), "/a/b");
    assert!(req.query_string().is_none());
}

#[test]
fn single_valued_query_parameters() {
    let buf = b"GET /search?name=abc&sort=1 HTTP/1.1\r\n";
    let req = Request::try_from(&buf[..]).unwrap();
    assert_eq!(req.path(), "/search");
    let qs = req.query_string().unwrap();
    match qs.get("name") {
        Some(QueryStringValue::Single(v)) => assert_eq!(*v, "abc"),
        other => panic!("name: unexpected {:?}", other),
    }
    match qs.get("sort") {
        Some(QueryStringValue::Single(v)) => assert_eq!(*v, "1"),
        other => panic!("sort: unexpected {:?}", other),
    }
}

#[test]
fn repeated_key_accumulates_in_encounter_order() {
    let buf = b"GET /x?tag=a&tag=b HTTP/1.1\r\n";
    let req = Request::try_from(&buf[..]).unwrap();
    let qs = req.query_string().unwrap();
    match qs.get("tag") {
        Some(QueryStringValue::Multiple(vs)) => assert_eq!(vs[..], ["a", "b"][..]),
        other => panic!("tag: unexpected {:?}", other),
    }
}

#[test]
fn key_without_equals_maps_to_empty_value() {
    let buf = b"GET /x?flag HTTP/1.1\r\n";
    let req = Request::try_from(&buf[..]).unwrap();
    let qs = req.query_string().unwrap();
    match qs.get("flag") {
        Some(QueryStringValue::Single(v)) => assert_eq!(*v, ""),
        other => panic!("flag: unexpected {:?}", other),
    }
}

#[test]
fn missing_protocol_token_is_invalid_request() {
    let buf = b"GET /x\r\n";
    assert_eq!(Request::try_from(&buf[..]).unwrap_err(), ParseError::InvalidRequest);
}

#[test]
fn wrong_protocol_is_invalid_protocol() {
    let buf = b"GET /x FTP/1.0\r\n";
    assert_eq!(Request::try_from(&buf[..]).unwrap_err(), ParseError::InvalidProtocol);
}

#[test]
fn older_http_version_is_invalid_protocol() {
    let buf = b"GET /x HTTP/1.0\r\n";
    assert_eq!(Request::try_from(&buf[..]).unwrap_err(), ParseError::InvalidProtocol);
}

#[test]
fn unknown_verb_is_invalid_method() {
    let buf = b"FOO /x HTTP/1.1\r\n";
    assert_eq!(Request::try_from(&buf[..]).unwrap_err(), ParseError::InvalidMethod);
}

#[test]
fn method_matching_is_case_sensitive() {
    let buf = b"get /x HTTP/1.1\r\n";
    assert_eq!(Request::try_from(&buf[..]).unwrap_err(), ParseError::InvalidMethod);
}

#[test]
fn invalid_utf8_is_invalid_encoding() {
    let buf = b"GET /\xff HTTP/1.1\r\n";
    assert_eq!(Request::try_from(&buf[..]).unwrap_err(), ParseError::InvalidEncoding);
}

#[test]
fn invalid_utf8_beats_missing_tokens() {
    // The bytes hold no delimiter at all, but decoding fails first.
    let buf = b"\xff\xfe";
    assert_eq!(Request::try_from(&buf[..]).unwrap_err(), ParseError::InvalidEncoding);
}

#[test]
fn reparsing_the_same_buffer_agrees() {
    let buf = b"GET /search?name=abc&sort=1 HTTP/1.1\r\n";
    let first = Request::try_from(&buf[..]).unwrap();
    let second = Request::try_from(&buf[..]).unwrap();
    assert_eq!(first.path(), second.path());
    assert!(matches!(*second.method(), Method::Get));
    assert_eq!(*first.method() == Method::Get, *second.method() == Method::Get);
    assert_eq!(first.query_string().is_some(), second.query_string().is_some());

    let bad = b"GET /x FTP/1.0\r\n";
    let e1 = Request::try_from(&bad[..]).unwrap_err();
    let e2 = Request::try_from(&bad[..]).unwrap_err();
    assert_eq!(e1, e2);
}

#[test]
fn path_is_truncated_at_the_first_question_mark() {
    let buf = b"GET /x?tag=1?weird HTTP/1.1\r\n";
    let req = Request::try_from(&buf[..]).unwrap();
    assert_eq!(req.path(), "/x");
    assert!(!req.path().contains('?'));
    let qs = req.query_string().unwrap();
    match qs.get("tag") {
        Some(QueryStringValue::Single(v)) => assert_eq!(*v, "1?weird"),
        other => panic!("tag: unexpected {:?}", other),
    }
}

#[test]
fn all_nine_verbs_parse() {
    let cases: [(&[u8], Method); 9] = [
        (b"GET / HTTP/1.1\r\n", Method::Get),
        (b"POST / HTTP/1.1\r\n", Method::Post),
        (b"PUT / HTTP/1.1\r\n", Method::Put),
        (b"DELETE / HTTP/1.1\r\n", Method::Delete),
        (b"HEAD / HTTP/1.1\r\n", Method::Head),
        (b"CONNECT / HTTP/1.1\r\n", Method::Connect),
        (b"OPTIONS / HTTP/1.1\r\n", Method::Options),
        (b"TRACE / HTTP/1.1\r\n", Method::Trace),
        (b"PATCH / HTTP/1.1\r\n", Method::Patch),
    ];
    for (buf, want) in cases {
        let req = Request::try_from(buf).unwrap();
        assert_eq!(*req.method(), want);
    }
}

#[test]
fn carriage_return_also_ends_a_token() {
    // The first of space or carriage return wins; here `\r` ends the path.
    let buf = b"GET /x\rHTTP/1.1 extra";
    let req = Request::try_from(&buf[..]).unwrap();
    assert_eq!(req.path(), "/x");
    assert!(req.query_string().is_none());
}

#[test]
fn protocol_token_needs_a_trailing_delimiter() {
    // The third scan finds no space or carriage return, so the text is
    // exhausted before three tokens are found.
    let buf = b"GET /x HTTP/1.1";
    assert_eq!(Request::try_from(&buf[..]).unwrap_err(), ParseError::InvalidRequest);
}

#[test]
fn empty_buffer_is_invalid_request() {
    let buf = b"";
    assert_eq!(Request::try_from(&buf[..]).unwrap_err(), ParseError::InvalidRequest);
}

#[test]
fn error_messages_are_fixed() {
    assert_eq!(ParseError::InvalidRequest.message(), "Invalid Request");
    assert_eq!(ParseError::InvalidEncoding.message(), "Invalid Encoding");
    assert_eq!(ParseError::InvalidProtocol.message(), "Invalid Protocol");
    assert_eq!(ParseError::InvalidMethod.message(), "Invalid Method");
}
