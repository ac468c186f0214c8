use http_server::{FileServer, Request, StatusCode};

fn server() -> FileServer {
    FileServer::new("/srv/public".to_string())
}

#[test]
fn root_path_names_index() {
    let req = Request::parse(b"GET / HTTP/1.1\r\n").unwrap();
    assert_eq!(server().file_for(&req), Some("/srv/public/index.html".to_string()));
}

#[test]
fn other_paths_are_appended_verbatim() {
    let req = Request::parse(b"GET /css/site.css HTTP/1.1\r\n").unwrap();
    assert_eq!(server().file_for(&req), Some("/srv/public//css/site.css".to_string()));
    let req = Request::parse(b"GET /../../etc/passwd HTTP/1.1\r\n").unwrap();
    assert_eq!(server().file_for(&req), Some("/srv/public//../../etc/passwd".to_string()));
}

#[test]
fn only_get_names_a_file() {
    let req = Request::parse(b"POST /index.html HTTP/1.1\r\n").unwrap();
    assert_eq!(server().file_for(&req), None);
}

#[test]
fn containment_compares_whole_components() {
    let s = server();
    assert!(s.contains("/srv/public"));
    assert!(s.contains("/srv/public/index.html"));
    assert!(!s.contains("/etc/passwd"));
    assert!(!s.contains("/srv/public-other/x"));
    assert!(!s.contains("/srv"));
    let slash = FileServer::new("/srv/public/".to_string());
    assert!(slash.contains("/srv/public/a"));
}

#[test]
fn escaped_path_is_not_served() {
    let r = server().respond(Some("/etc/passwd"), Some("root:x:0:0".to_string()));
    assert_eq!(r.status_code, StatusCode::NotFound);
    assert!(r.body.is_none());
}

#[test]
fn index_under_root_is_served() {
    let r = server().respond(Some("/srv/public/index.html"), Some("<h1>home</h1>".to_string()));
    assert_eq!(r.status_code, StatusCode::OK);
    assert_eq!(r.body.as_deref(), Some("<h1>home</h1>"));
    assert_eq!(r.wire(), "HTTP/1.1 200 Ok\r\n\r\n<h1>home</h1>");
}

#[test]
fn missing_file_is_not_found_without_body() {
    let r = server().respond(None, None);
    assert_eq!(r.status_code, StatusCode::NotFound);
    assert!(r.body.is_none());
    let unreadable = server().respond(Some("/srv/public/image.png"), None);
    assert_eq!(unreadable.status_code, StatusCode::NotFound);
    assert!(unreadable.body.is_none());
}
