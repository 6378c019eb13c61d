use http_core::{Method, MethodError, ParseError, QueryString, Responce, StatusCode, Value};

#[test]
fn parse_error_messages() {
    assert_eq!(ParseError::InvalidRequest.message(), "Invalid Request");
    assert_eq!(ParseError::InvalidEncoding.message(), "Invalid Encoding");
    assert_eq!(ParseError::InvalidProtocol.message(), "Invalid Protocol");
    assert_eq!(ParseError::InvalidMethod.message(), "Invalid Method");
}

#[test]
fn method_error_converts_to_invalid_method() {
    assert_eq!(ParseError::from(MethodError), ParseError::InvalidMethod);
}

#[test]
fn utf8_error_converts_to_invalid_encoding() {
    let bytes = vec![0xc3u8, 0x28];
    let err = std::str::from_utf8(&bytes).unwrap_err();
    assert_eq!(ParseError::from(err), ParseError::InvalidEncoding);
}

#[test]
fn method_tokens() {
    assert_eq!(Method::parse("GET"), Ok(Method::GET));
    assert_eq!(Method::parse("PATCH"), Ok(Method::PATCH));
    assert_eq!(Method::parse("Get"), Err(MethodError));
    assert_eq!(Method::parse(""), Err(MethodError));
    assert_eq!(Method::parse("GETS"), Err(MethodError));
}

#[test]
fn query_string_from_fragment() {
    let q = QueryString::parse("a=1&b=2&a=3");
    assert_eq!(q.len(), 2);
    assert_eq!(q.get("a"), Some(&Value::Multiple(vec!["1", "3"])));
    assert_eq!(q.get("b"), Some(&Value::Single("2")));
}

#[test]
fn query_string_empty_pairs() {
    let q = QueryString::parse("a=1&&a=2");
    assert_eq!(q.len(), 2);
    assert_eq!(q.get(""), Some(&Value::Single("")));
    assert_eq!(q.get("a"), Some(&Value::Multiple(vec!["1", "2"])));
}

#[test]
fn status_codes_and_phrases() {
    assert_eq!(StatusCode::OK.code(), 200);
    assert_eq!(StatusCode::BadRequest.code(), 400);
    assert_eq!(StatusCode::NotFound.code(), 404);
    assert_eq!(StatusCode::OK.reason_phrase(), "Ok");
    assert_eq!(StatusCode::BadRequest.reason_phrase(), "Bad request");
    assert_eq!(StatusCode::NotFound.reason_phrase(), "Not Found");
}

#[test]
fn response_keeps_status_and_body() {
    let r = Responce::new(StatusCode::NotFound, Some(String::from("<h1>missing</h1>")));
    assert_eq!(r.status_code(), StatusCode::NotFound);
    assert_eq!(r.body(), Some("<h1>missing</h1>"));
    let empty = Responce::new(StatusCode::OK, None);
    assert_eq!(empty.status_code(), StatusCode::OK);
    assert_eq!(empty.body(), None);
}
