use minihttp::request::{ParseError, Request};
use minihttp::response::{Response, StatusCode};
use minihttp::server::{Handler, Server};

struct CountingHandler {
    good: usize,
    bad: usize,
}

impl Handler for CountingHandler {
    fn handle_request(&mut self, request: &Request) -> Response {
        self.good += 1;
        Response::new(StatusCode::Success, Some(format!("you asked for {}", request.path())))
    }
}

#[test]
fn server_keeps_its_address() {
    let server = Server::new(String::from("127.0.0.1:8080"));
    assert_eq!(server.addr(), "127.0.0.1:8080");
}

#[test]
fn dispatch_good_request_to_handler() {
    let mut handler = CountingHandler { good: 0, bad: 0 };
    let buf = b"GET /hello HTTP/1.1\r\n";
    let response = match Request::try_from(&buf[..]) {
        Ok(request) => handler.handle_request(&request),
        Err(e) => handler.handle_bad_request(&e),
    };
    assert_eq!(handler.good, 1);
    assert_eq!(handler.bad, 0);
    assert_eq!(response.status().code(), 200);
    assert_eq!(response.body_text().unwrap(), "you asked for /hello");
}

#[test]
fn default_bad_request_handling_is_a_bare_bad_request() {
    let mut handler = CountingHandler { good: 0, bad: 0 };
    let buf = b"FOO /x HTTP/1.1\r\n";
    let response = match Request::try_from(&buf[..]) {
        Ok(request) => handler.handle_request(&request),
        Err(e) => handler.handle_bad_request(&e),
    };
    assert_eq!(handler.good, 0);
    assert_eq!(response.status().code(), 400);
    assert_eq!(response.status().reason_phrase(), "Bad Request");
    assert!(response.body_text().is_none());
}

#[test]
fn status_codes_and_reason_phrases() {
    assert_eq!(StatusCode::Success.code(), 200);
    assert_eq!(StatusCode::Success.reason_phrase(), "Ok");
    assert_eq!(StatusCode::BadRequest.code(), 400);
    assert_eq!(StatusCode::BadRequest.reason_phrase(), "Bad Request");
    assert_eq!(StatusCode::NotFound.code(), 404);
    assert_eq!(StatusCode::NotFound.reason_phrase(), "Not Found");
}
