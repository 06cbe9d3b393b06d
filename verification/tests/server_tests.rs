use oxido::request::{ParseError, Request};
use oxido::response::Response;
use oxido::server::{handle_buffer, Handler, Server};
use oxido::status_code::StatusCode;

struct EchoPathHandler;

impl Handler for EchoPathHandler {
    fn handle_request(&mut self, request: &Request) -> Response {
        Response::new(StatusCode::Okay, Some(request.path().to_string()))
    }
}

struct CountingHandler {
    bad: u32,
}

impl Handler for CountingHandler {
    fn handle_request(&mut self, _request: &Request) -> Response {
        Response::new(StatusCode::Okay, None)
    }

    fn handle_bad_request(&mut self, _error: &ParseError) -> Response {
        self.bad += 1;
        Response::new(StatusCode::BadRequest, None)
    }
}

#[test]
fn should_store_the_listen_address() {
    let server = Server::new("127.0.0.1:8080".to_string());
    assert_eq!(server.addr(), "127.0.0.1:8080");
}

#[test]
fn should_dispatch_a_good_buffer_to_the_handler() {
    let mut handler = EchoPathHandler;
    let out = handle_buffer(&mut handler, &b"GET /hello HTTP/1.1\r"[..]);
    assert_eq!(String::from_utf8(out).unwrap(), "HTTP/1.1 200 Ok\r\n\r\n/hello");
}

#[test]
fn should_dispatch_a_bad_buffer_to_the_error_hook() {
    let mut handler = CountingHandler { bad: 0 };
    let out = handle_buffer(&mut handler, &b"GET /\r"[..]);
    assert_eq!(String::from_utf8(out).unwrap(), "HTTP/1.1 400 Bad Request\r\n\r\n");
    assert_eq!(handler.bad, 1);
}

#[test]
fn should_answer_bad_request_by_default() {
    let mut handler = EchoPathHandler;
    let out = handle_buffer(&mut handler, &b"GET / HTTP/1.0\r"[..]);
    assert_eq!(String::from_utf8(out).unwrap(), "HTTP/1.1 400 Bad Request\r\n\r\n");
}
