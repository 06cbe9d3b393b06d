use oxido::response::Response;
use oxido::status_code::StatusCode;

#[test]
fn should_sent_response_without_body() {
    let mut out = Vec::new();

    Response::new(StatusCode::NotFound, None).send(&mut out);

    let string_output = String::from_utf8(out).unwrap();
    assert_eq!(string_output, "HTTP/1.1 404 Not Found\r\n\r\n");
}

#[test]
fn should_sent_response_with_body() {
    let mut out = Vec::new();

    Response::new(StatusCode::Okay, Some("<h1>Test body</h1>".to_string())).send(&mut out);

    let string_output = String::from_utf8(out).unwrap();
    assert_eq!(string_output, "HTTP/1.1 200 Ok\r\n\r\n<h1>Test body</h1>");
}

#[test]
fn should_append_after_existing_bytes() {
    let mut out = b"prefix:".to_vec();
    Response::new(StatusCode::BadRequest, None).send(&mut out);
    let string_output = String::from_utf8(out).unwrap();
    assert_eq!(string_output, "prefix:HTTP/1.1 400 Bad Request\r\n\r\n");
}
