use worker_pool::request::starts_with;
use worker_pool::{route, Route};

#[test]
fn root_request_gets_greeting() {
    let r = route(b"GET / HTTP/1.1\r\nHost: localhost\r\n\r\n");
    assert!(matches!(r, Route::Index));
    assert_eq!(r.status_line(), "HTTP/1.1 200 OK");
    assert_eq!(r.file_name(), "hello.html");
    assert!(!r.is_delayed());
}

#[test]
fn sleep_request_is_delayed() {
    let r = route(b"GET /sleep HTTP/1.1\r\n\r\n");
    assert!(matches!(r, Route::Sleep));
    assert_eq!(r.status_line(), "HTTP/1.1 200 OK");
    assert_eq!(r.file_name(), "hello.html");
    assert!(r.is_delayed());
}

#[test]
fn other_requests_are_not_found() {
    for req in [&b"GET /other HTTP/1.1\r\n"[..], b"POST / HTTP/1.1\r\n", b"GET / HTTP/1.1", b""] {
        let r = route(req);
        assert!(matches!(r, Route::NotFound));
        assert_eq!(r.status_line(), "HTTP/1.1 404 NOT FOUND");
        assert_eq!(r.file_name(), "404.html");
        assert!(!r.is_delayed());
    }
}

#[test]
fn prefix_check() {
    assert!(starts_with(b"abc", b"ab"));
    assert!(starts_with(b"abc", b""));
    assert!(starts_with(b"abc", b"abc"));
    assert!(!starts_with(b"ab", b"abc"));
    assert!(!starts_with(b"abc", b"ac"));
}
