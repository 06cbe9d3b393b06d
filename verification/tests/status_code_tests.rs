use oxido::status_code::StatusCode;

#[test]
fn should_return_ok() {
    assert_eq!(StatusCode::Okay.reason_phrase(), "Ok");
}

#[test]
fn should_return_bad_request() {
    let code = StatusCode::BadRequest;
    assert_eq!(code.reason_phrase(), "Bad Request");
}

#[test]
fn should_return_not_found() {
    let code = StatusCode::NotFound;
    assert_eq!(code.reason_phrase(), "Not Found");
}

#[test]
fn should_render_200() {
    assert_eq!(StatusCode::Okay.code_string(), "200");
}

#[test]
fn should_render_400() {
    assert_eq!(StatusCode::BadRequest.code_string(), "400");
}

#[test]
fn should_render_404() {
    assert_eq!(StatusCode::NotFound.code_string(), "404");
}

#[test]
fn should_round_trip_numeric_values() {
    assert_eq!(StatusCode::Okay.code(), 200);
    assert_eq!(StatusCode::Okay.code_string(), format!("{}", StatusCode::Okay.code()));
    assert_eq!(StatusCode::BadRequest.code(), 400);
    assert_eq!(StatusCode::BadRequest.code_string(), format!("{}", StatusCode::BadRequest.code()));
    assert_eq!(StatusCode::NotFound.code(), 404);
    assert_eq!(StatusCode::NotFound.code_string(), format!("{}", StatusCode::NotFound.code()));
}
