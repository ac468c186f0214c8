use http_server::server::bad_request_response;
use http_server::{dispatch, HttpRequestHandler, ParseError, Request, Response, Server, StatusCode};

#[test]
fn ok_with_body_serializes_exactly() {
    let r = Response::new(StatusCode::OK, Some("hi".to_string()));
    assert_eq!(r.wire(), "HTTP/1.1 200 Ok\r\n\r\nhi");
    assert_eq!(r.wire().into_bytes(), b"HTTP/1.1 200 Ok\r\n\r\nhi".to_vec());
}

#[test]
fn not_found_without_body_serializes_exactly() {
    let r = Response::new(StatusCode::NotFound, None);
    assert_eq!(r.wire(), "HTTP/1.1 404 Not Found\r\n\r\n");
}

#[test]
fn bad_request_serializes_exactly() {
    let r = Response::new(StatusCode::BadRequest, None);
    assert_eq!(r.wire(), "HTTP/1.1 400 Bad Request\r\n\r\n");
}

#[test]
fn status_codes_and_reasons() {
    assert_eq!(StatusCode::OK.code(), 200);
    assert_eq!(StatusCode::BadRequest.code(), 400);
    assert_eq!(StatusCode::NotFound.code(), 404);
    assert_eq!(StatusCode::OK.reason_phase(), "Ok");
    assert_eq!(StatusCode::BadRequest.reason_phase(), "Bad Request");
    assert_eq!(StatusCode::NotFound.reason_phase(), "Not Found");
    assert_eq!(StatusCode::NotFound.code_text(), "404");
}

#[test]
fn default_bad_request_answer() {
    let r = bad_request_response(&ParseError::InvalidMethod);
    assert_eq!(r.status_code, StatusCode::BadRequest);
    assert!(r.body.is_none());
}

struct Echo;

impl HttpRequestHandler for Echo {
    fn handle_request(&mut self, request: &Request) -> Response {
        Response::new(StatusCode::OK, Some(request.path().to_string()))
    }
}

#[test]
fn dispatch_routes_parsed_and_failed_requests() {
    let mut h = Echo;
    let ok = dispatch(&mut h, b"GET /echo?x=1 HTTP/1.1\r\n");
    assert_eq!(ok.wire(), "HTTP/1.1 200 Ok\r\n\r\n/echo");
    let bad = dispatch(&mut h, b"GET / HTTP/1.0\r\n");
    assert_eq!(bad.wire(), "HTTP/1.1 400 Bad Request\r\n\r\n");
}

#[test]
fn server_keeps_its_address() {
    let s = Server::new("127.0.0.1:8080".to_string());
    assert_eq!(s.address(), "127.0.0.1:8080");
}

#[test]
fn default_handle_bad_request_is_400_without_body() {
    let mut h = Echo;
    for e in [
        ParseError::InvalidRequest,
        ParseError::InvalidEncoding,
        ParseError::InvalidProtocol,
        ParseError::InvalidMethod,
    ] {
        let r = h.handle_bad_request(&e);
        assert_eq!(r.status_code, StatusCode::BadRequest);
        assert!(r.body.is_none());
        assert_eq!(r.wire().into_bytes(), b"HTTP/1.1 400 Bad Request\r\n\r\n".to_vec());
    }
}
