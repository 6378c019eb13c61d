use http_core::request::get_next_word;
use http_core::{Method, ParseError, Request, Value};

#[test]
fn well_formed_line_without_query() {
    let buf = b"GET /index.html HTTP/1.1\r\n";
    let req = Request::parse(buf).unwrap();
    assert_eq!(req.path(), "/index.html");
    assert_eq!(*req.method(), Method::GET);
    assert!(req.query_string().is_none());
}

#[test]
fn well_formed_delete_line() {
    let req = Request::parse(b"DELETE /items/7 HTTP/1.1\r\n").unwrap();
    assert_eq!(req.path(), "/items/7");
    assert_eq!(*req.method(), Method::DELETE);
    assert!(req.query_string().is_none());
}

#[test]
fn every_known_method_parses() {
    let cases = [
        ("GET", Method::GET),
        ("DELETE", Method::DELETE),
        ("POST", Method::POST),
        ("PUT", Method::PUT),
        ("HEAD", Method::HEAD),
        ("CONNECT", Method::CONNECT),
        ("OPTIONS", Method::OPTIONS),
        ("TRACE", Method::TRACE),
        ("PATCH", Method::PATCH),
    ];
    for (name, method) in cases {
        let line = format!("{} /a HTTP/1.1\r\n", name);
        let req = Request::parse(line.as_bytes()).unwrap();
        assert_eq!(*req.method(), method);
        assert_eq!(req.path(), "/a");
    }
}

#[test]
fn search_query_single_values() {
    let req = Request::parse(b"GET /search?name=abc&sort=1 HTTP/1.1\r\n").unwrap();
    assert_eq!(req.path(), "/search");
    let q = req.query_string().unwrap();
    assert_eq!(q.len(), 2);
    assert_eq!(q.get("name"), Some(&Value::Single("abc")));
    assert_eq!(q.get("sort"), Some(&Value::Single("1")));
    assert_eq!(q.get("missing"), None);
}

#[test]
fn search_query_repeated_key() {
    let req = Request::parse(b"GET /search?sort=1&sort=2 HTTP/1.1\r\n").unwrap();
    assert_eq!(req.path(), "/search");
    let q = req.query_string().unwrap();
    assert_eq!(q.len(), 1);
    assert_eq!(q.get("sort"), Some(&Value::Multiple(vec!["1", "2"])));
}

#[test]
fn missing_protocol_is_invalid_request() {
    assert_eq!(Request::parse(b"GET /x").unwrap_err(), ParseError::InvalidRequest);
}

#[test]
fn empty_buffer_is_invalid_request() {
    assert_eq!(Request::parse(b"").unwrap_err(), ParseError::InvalidRequest);
}

#[test]
fn other_protocol_is_invalid_protocol() {
    assert_eq!(Request::parse(b"GET /x FTP/1.0\r\n").unwrap_err(), ParseError::InvalidProtocol);
}

#[test]
fn older_http_is_invalid_protocol() {
    assert_eq!(Request::parse(b"GET /x HTTP/1.0\r\n").unwrap_err(), ParseError::InvalidProtocol);
}

#[test]
fn unknown_verb_is_invalid_method() {
    assert_eq!(Request::parse(b"FOO /x HTTP/1.1\r\n").unwrap_err(), ParseError::InvalidMethod);
}

#[test]
fn lower_case_verb_is_invalid_method() {
    assert_eq!(Request::parse(b"get /x HTTP/1.1\r\n").unwrap_err(), ParseError::InvalidMethod);
}

#[test]
fn invalid_utf8_is_invalid_encoding() {
    let buf: &[u8] = &[b'G', b'E', b'T', b' ', 0xff, 0xfe, b' ', b'H'];
    assert_eq!(Request::parse(buf).unwrap_err(), ParseError::InvalidEncoding);
}

#[test]
fn protocol_is_checked_before_method() {
    assert_eq!(Request::parse(b"FOO /x FTP/1.0\r\n").unwrap_err(), ParseError::InvalidProtocol);
}

#[test]
fn parsing_twice_gives_equal_requests() {
    let buf = b"GET /search?name=abc&sort=1&sort=2 HTTP/1.1\r\n";
    let a = Request::parse(buf).unwrap();
    let b = Request::parse(buf).unwrap();
    assert_eq!(a, b);
    assert_eq!(a.path(), b.path());
    assert_eq!(a.method(), b.method());
    assert_eq!(a.query_string(), b.query_string());
}

#[test]
fn headers_after_the_line_are_ignored() {
    let req = Request::parse(b"POST /submit HTTP/1.1\r\nHost: example.org\r\n\r\nbody").unwrap();
    assert_eq!(req.path(), "/submit");
    assert_eq!(*req.method(), Method::POST);
}

#[test]
fn pair_without_equals_has_empty_value() {
    let req = Request::parse(b"GET /p?flag&x=1 HTTP/1.1\r\n").unwrap();
    let q = req.query_string().unwrap();
    assert_eq!(q.get("flag"), Some(&Value::Single("")));
    assert_eq!(q.get("x"), Some(&Value::Single("1")));
}

#[test]
fn value_keeps_text_after_first_equals() {
    let req = Request::parse(b"GET /p?a=b=c HTTP/1.1\r\n").unwrap();
    let q = req.query_string().unwrap();
    assert_eq!(q.get("a"), Some(&Value::Single("b=c")));
}

#[test]
fn empty_query_after_question_mark() {
    let req = Request::parse(b"GET /p? HTTP/1.1\r\n").unwrap();
    assert_eq!(req.path(), "/p");
    let q = req.query_string().unwrap();
    assert_eq!(q.len(), 1);
    assert_eq!(q.get(""), Some(&Value::Single("")));
}

#[test]
fn three_values_stay_in_order() {
    let req = Request::parse(b"GET /?k=3&j=0&k=1&k=2 HTTP/1.1\r\n").unwrap();
    let q = req.query_string().unwrap();
    assert_eq!(q.len(), 2);
    assert_eq!(q.get("k"), Some(&Value::Multiple(vec!["3", "1", "2"])));
    assert_eq!(q.get("j"), Some(&Value::Single("0")));
}

#[test]
fn non_ascii_text_is_split_by_characters() {
    let req = Request::parse("GET /caf\u{e9}?n\u{e4}me=\u{fc}ber HTTP/1.1\r\n".as_bytes()).unwrap();
    assert_eq!(req.path(), "/caf\u{e9}");
    let q = req.query_string().unwrap();
    assert_eq!(q.get("n\u{e4}me"), Some(&Value::Single("\u{fc}ber")));
}

#[test]
fn from_text_parses_text() {
    let req = Request::from_text("PUT /doc?v=2 HTTP/1.1\r\n").unwrap();
    assert_eq!(req.path(), "/doc");
    assert_eq!(*req.method(), Method::PUT);
}

#[test]
fn next_word_splits_at_space() {
    assert_eq!(get_next_word("GET /x"), Some(("GET", "/x")));
}

#[test]
fn next_word_splits_at_carriage_return() {
    assert_eq!(get_next_word("HTTP/1.1\r\nHost"), Some(("HTTP/1.1", "\nHost")));
}

#[test]
fn next_word_without_delimiter() {
    assert_eq!(get_next_word("/x"), None);
    assert_eq!(get_next_word(""), None);
}

#[test]
fn next_word_at_leading_delimiter() {
    assert_eq!(get_next_word(" a"), Some(("", "a")));
}
