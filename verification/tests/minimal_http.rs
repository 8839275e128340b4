//! The minimal request/response frontend.

use server::minimal::parts::{HttpMethod, StatusCode};
use server::minimal::{Request, Response};
use server::strmap::StringMap;

#[test]
fn min_request_parses_line_and_headers() {
    let r: Request<String> =
        Request::new("GET /abc HTTP/1.0\r\nHost: x\r\nFoo: bar\r\n".to_string()).unwrap();
    assert_eq!(
        r.to_string(),
        "GET /abc HTTP/1.0\r\nHost: x\r\nFoo: bar\r\n\r\n"
    );
}

#[test]
fn min_request_defaults() {
    let r: Request<String> = Request::new("".to_string()).unwrap();
    assert_eq!(r.to_string(), "GET / HTTP/1.1\r\n\r\n");
}

#[test]
fn min_request_unknown_method() {
    assert!(Request::<String>::new("BREW / HTTP/1.1".to_string()).is_err());
}

#[test]
fn min_method_from_str() {
    assert_eq!(HttpMethod::from_str("DELETE").unwrap(), HttpMethod::DELETE);
    assert!(HttpMethod::from_str("delete").is_err());
    assert!(HttpMethod::from_str("").is_err());
}

#[test]
fn min_status_to_string() {
    assert_eq!(StatusCode::OK.to_string(), "200 OK");
    assert_eq!(StatusCode::NOTFOUND.to_string(), "404 NOTFOUND");
    assert_eq!(StatusCode::OTHER.to_string(), "400 BAD REQUEST");
}

#[test]
fn min_response_wire_format() {
    let wire = Response::new()
        .set_status(StatusCode::NOTFOUND)
        .set_body("hi".to_string())
        .set_header("X-A".to_string(), "1".to_string())
        .set_cookie("s".to_string(), "1".to_string())
        .to_wire("HTTP/1.1", "Mon, 01 Jan 2024 00:00:00 +0000");
    assert_eq!(
        wire,
        "HTTP/1.1 404 NOTFOUND\r\nContent-Type: text/html\r\nDate: Mon, 01 Jan 2024 00:00:00 +0000\r\nConnection: Keep-Alive\r\nAge: 0\r\nContent-Length: 2\r\nSet-Cookie:s=1;\r\nX-A: 1\r\n\r\nhi"
    );
}

#[test]
fn min_response_headers_and_cookies() {
    let r = Response::new().set_header("A".to_string(), "1".to_string());
    assert!(r.has_header("A".to_string()));
    let r = Response::new()
        .set_header("A".to_string(), "1".to_string())
        .remove_header("A".to_string());
    assert!(!r.has_header("A".to_string()));
    let r = Response::new().set_cookie("k".to_string(), "v".to_string());
    assert!(r.has_cookie("k".to_string()));
    let r = Response::new()
        .set_cookie("k".to_string(), "v".to_string())
        .remove_cookie("k".to_string());
    assert!(!r.has_cookie("k".to_string()));
}

#[test]
fn min_response_content_length_is_byte_length() {
    let r = Response::new().set_body("héllo".to_string());
    assert_eq!(r.content_length(), 6);
}

#[test]
fn min_response_wire_now_has_fixed_headers() {
    let wire = Response::new().to_wire_now("HTTP/1.1");
    assert!(wire.starts_with("HTTP/1.1 200 OK\r\nContent-Type: text/html\r\nDate: "));
    assert!(wire.contains("\r\nConnection: Keep-Alive\r\nAge: 0\r\nContent-Length: 0\r\n"));
}

#[test]
fn min_request_from_parts_renders() {
    let r: Request<String> = Request::new_from_part(
        HttpMethod::POST,
        "HTTP/1.1".to_string(),
        "/submit".to_string(),
        StringMap::new(),
        StringMap::new(),
        None,
    );
    assert_eq!(r.to_string(), "POST /submit HTTP/1.1\r\n\r\n");
}
