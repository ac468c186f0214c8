use http_server::{get_next_word, Method, ParseError, QueryString, Request, Value};

fn values(q: &QueryString, key: &str) -> Option<Vec<String>> {
    match q.get(key) {
        Some(Value::Single(s)) => Some(vec![s.to_string()]),
        Some(Value::Multi(v)) => Some(v.iter().map(|s| s.to_string()).collect()),
        None => None,
    }
}

#[test]
fn parses_path_and_repeated_query() {
    let buf = b"GET /a/b?x=1&x=2 HTTP/1.1\r\n";
    let req = Request::parse(&buf[..]).expect("parses");
    assert_eq!(*req.method(), Method::GET);
    assert_eq!(req.path(), "/a/b");
    let q = req.query().expect("query present");
    match q.get("x") {
        Some(Value::Multi(v)) => assert_eq!(v, &vec!["1", "2"]),
        other => panic!("expected two values, got {:?}", other),
    }
}

#[test]
fn path_without_query_has_no_query() {
    let req = Request::parse(b"POST /submit HTTP/1.1\r\nHost: x\r\n\r\n").expect("parses");
    assert_eq!(*req.method(), Method::POST);
    assert_eq!(req.path(), "/submit");
    assert!(req.query().is_none());
}

#[test]
fn empty_query_after_question_mark() {
    let req = Request::parse(b"GET /p? HTTP/1.1\r\n").expect("parses");
    assert_eq!(req.path(), "/p");
    let q = req.query().expect("query present");
    assert_eq!(values(q, ""), Some(vec![String::new()]));
}

#[test]
fn wrong_protocol_is_rejected() {
    let r = Request::parse(b"GET / HTTP/1.0\r\n");
    assert_eq!(r.err(), Some(ParseError::InvalidProtocol));
}

#[test]
fn unknown_method_is_rejected() {
    let r = Request::parse(b"FETCH / HTTP/1.1\r\n");
    assert_eq!(r.err(), Some(ParseError::InvalidMethod));
}

#[test]
fn lower_case_method_is_rejected() {
    let r = Request::parse(b"get / HTTP/1.1\r\n");
    assert_eq!(r.err(), Some(ParseError::InvalidMethod));
}

#[test]
fn single_word_line_is_rejected() {
    let r = Request::parse(b"GET\r\n");
    assert_eq!(r.err(), Some(ParseError::InvalidRequest));
}

#[test]
fn line_without_terminator_is_the_whole_text() {
    let req = Request::parse(b"GET /x HTTP/1.1").expect("parses");
    assert_eq!(req.path(), "/x");
}

#[test]
fn single_word_line_before_headers_is_rejected() {
    let r = Request::parse(b"GET\r\nHost: a\r\n\r\n");
    assert_eq!(r.err(), Some(ParseError::InvalidRequest));
}

#[test]
fn two_word_line_before_headers_is_rejected() {
    let r = Request::parse(b"GET /\r\nHost: a b\r\n\r\n");
    assert_eq!(r.err(), Some(ParseError::InvalidRequest));
    let r = Request::parse(b"GET / \r\n");
    assert_eq!(r.err(), Some(ParseError::InvalidRequest));
}

#[test]
fn words_after_protocol_are_ignored() {
    let req = Request::parse(b"PUT /u HTTP/1.1 extra\nrest").expect("parses");
    assert_eq!(*req.method(), Method::PUT);
    assert_eq!(req.path(), "/u");
}

#[test]
fn protocol_checked_before_method() {
    let r = Request::parse(b"FETCH / HTTP/2\r\n");
    assert_eq!(r.err(), Some(ParseError::InvalidProtocol));
}

#[test]
fn invalid_utf8_is_rejected() {
    let r = Request::parse(&[0x47, 0x45, 0x54, 0x20, 0xff, 0xfe, 0x0a]);
    assert_eq!(r.err(), Some(ParseError::InvalidEncoding));
}

#[test]
fn zero_padded_buffer_parses() {
    let mut buf = [0u8; 1024];
    let line = b"DELETE /item?id=9 HTTP/1.1\r\n";
    buf[..line.len()].copy_from_slice(line);
    let req = Request::parse(&buf[..]).expect("parses");
    assert_eq!(*req.method(), Method::DELETE);
    assert_eq!(req.path(), "/item");
    assert_eq!(values(req.query().unwrap(), "id"), Some(vec!["9".to_string()]));
}

#[test]
fn parsing_twice_gives_the_same_request() {
    let buf = b"GET /s?a=1&b&a=2 HTTP/1.1\r\n";
    let r1 = Request::parse(&buf[..]).unwrap();
    let r2 = Request::parse(&buf[..]).unwrap();
    assert_eq!(r1.method(), r2.method());
    assert_eq!(r1.path(), r2.path());
    let (q1, q2) = (r1.query().unwrap(), r2.query().unwrap());
    for key in ["a", "b", "c", ""] {
        assert_eq!(values(q1, key), values(q2, key));
    }
    assert_eq!(values(q1, "a"), Some(vec!["1".to_string(), "2".to_string()]));
}

#[test]
fn parse_error_messages() {
    assert_eq!(ParseError::InvalidRequest.message(), "Invalid Request");
    assert_eq!(ParseError::InvalidEncoding.message(), "Invalid Encoding");
    assert_eq!(ParseError::InvalidProtocol.message(), "Invalid Protocol");
    assert_eq!(ParseError::InvalidMethod.message(), "Invalid Method");
}

#[test]
fn every_method_name_parses() {
    let names = [
        ("GET", Method::GET),
        ("DELETE", Method::DELETE),
        ("POST", Method::POST),
        ("PUT", Method::PUT),
        ("HEAD", Method::HEAD),
        ("CONNECT", Method::CONNECT),
        ("OPTIONS", Method::OPTIONS),
        ("TRACE", Method::TRACE),
        ("PATCH", Method::PATCH),
    ];
    for (name, m) in names {
        assert_eq!(Method::parse(name), Ok(m));
    }
    assert!(Method::parse("GETS").is_err());
    assert!(Method::parse("").is_err());
}

#[test]
fn next_word_splits_at_first_delimiter() {
    assert_eq!(get_next_word("GET /x HTTP/1.1"), Some(("GET", "/x HTTP/1.1")));
    assert_eq!(get_next_word("a\r\nb"), Some(("a", "\nb")));
    assert_eq!(get_next_word("a\nb"), Some(("a", "b")));
    assert_eq!(get_next_word(" x"), Some(("", "x")));
    assert_eq!(get_next_word("word"), None);
    assert_eq!(get_next_word(""), None);
}
