use oxido::method::Method;
use oxido::query_string::Value;
use oxido::request::{get_next_word, ParseError, Request};

#[test]
fn should_build_a_request_to_root() {
    let buffer = b"GET / HTTP/1.1\r";
    let request = Request::try_from(&buffer[..]).unwrap();

    assert_eq!(request.method, Method::GET);
    assert_eq!(request.path(), "/");
    assert!(request.query.is_none());
}

#[test]
fn should_build_a_request_to_special_path() {
    let buffer = b"GET /test HTTP/1.1\r";
    let request = Request::try_from(&buffer[..]).unwrap();

    assert_eq!(request.method, Method::GET);
    assert_eq!(request.path(), "/test");
    assert!(request.query.is_none());
}

#[test]
fn should_build_a_request_with_query_string() {
    let buffer = b"GET /test?a=1&b=2&c&d=&e===&d=7&d=abc HTTP/1.1\r";
    let request = Request::try_from(&buffer[..]).unwrap();

    assert_eq!(request.method, Method::GET);
    assert_eq!(request.path(), "/test");
}

#[test]
fn should_attach_query_values_to_request() {
    let buffer = b"GET /test?a=1&b=2 HTTP/1.1\r";
    let request = Request::try_from(&buffer[..]).unwrap();

    assert_eq!(request.path(), "/test");
    let query = request.query().unwrap();
    match query.get("a") {
        Some(Value::Single(v)) => assert_eq!(v, "1"),
        _ => panic!("expected a single value for key a"),
    }
    match query.get("b") {
        Some(Value::Single(v)) => assert_eq!(v, "2"),
        _ => panic!("expected a single value for key b"),
    }
}

#[test]
fn should_fail_on_wrong_protocol() {
    let buffer = b"GET / HTTP/1.0\r";
    let error = Request::try_from(&buffer[..]).unwrap_err();
    assert_eq!(error, ParseError::InvalidProtocol);
}

#[test]
fn should_fail_on_invalid_utf8() {
    let buffer = [0xffu8, 0xfe, 0x20, 0x20];
    let error = Request::try_from(&buffer[..]).unwrap_err();
    assert_eq!(error, ParseError::InvalidEncoding);
}

#[test]
fn should_fail_on_missing_protocol_token() {
    let buffer = b"GET /\r";
    let error = Request::try_from(&buffer[..]).unwrap_err();
    assert_eq!(error, ParseError::InvalidRequest);
}

#[test]
fn should_fail_on_unknown_method() {
    let buffer = b"FOO / HTTP/1.1\r";
    let error = Request::try_from(&buffer[..]).unwrap_err();
    assert_eq!(error, ParseError::InvalidMethod);
}

#[test]
fn should_split_the_first_word() {
    let (word, rest) = get_next_word("GET / HTTP/1.1\r").unwrap();
    assert_eq!(word, "GET");
    assert_eq!(rest, "/ HTTP/1.1\r");
    assert!(get_next_word("no-delimiter-here").is_none());
}

#[test]
fn should_describe_each_error() {
    assert_eq!(ParseError::InvalidRequest.message(), "Invalid Request");
    assert_eq!(ParseError::InvalidEncoding.message(), "Invalid Encoding");
    assert_eq!(ParseError::InvalidProtocol.message(), "Invalid Protocol");
    assert_eq!(ParseError::InvalidMethod.message(), "Invalid Method");
}

#[test]
fn should_parse_known_methods_only() {
    assert_eq!(Method::parse("GET").unwrap(), Method::GET);
    assert_eq!(Method::parse("POST").unwrap(), Method::POST);
    assert_eq!(Method::parse("DELETE").unwrap(), Method::DELETE);
    assert!(Method::parse("get").is_err());
    assert!(Method::parse("").is_err());
    assert!(Method::parse("GETX").is_err());
}
