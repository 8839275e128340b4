//! Building and rendering responses, and the wire-type mappings.

use server::cookie::CookieBuilder;
use server::method::HttpMethod;
use server::response::Response;
use server::status::HttpStatusCode;
use server::version::HttpVersion;

#[test]
fn render_hello_world() {
    let wire = Response::new().body("Hello, World!\n").build().to_string();
    assert!(wire.starts_with("200 OK\r\n"));
    assert!(wire.contains("Content-Length: 14"));
    assert!(wire.ends_with("Hello, World!\n"));
    assert_eq!(
        wire,
        "200 OK\r\nContent-Length: 14\r\nContent-Type: text/plain\r\n\r\nHello, World!\n"
    );
}

#[test]
fn render_not_found_empty_body() {
    let wire = Response::new().status(HttpStatusCode::NotFound).build().to_string();
    assert_eq!(wire, "404 Not Found\r\nContent-Length: 0\r\n\r\n");
}

#[test]
fn render_with_cookies() {
    let session = CookieBuilder::new("sid".to_string(), "abc".to_string()).build();
    let wire = Response::new().cookie("sid", session).build().to_string();
    assert_eq!(wire, "200 OK\r\nContent-Length: 0\r\nSet-Cookie: sid=abc\r\n\r\n");
}

#[test]
fn render_two_cookies_joined() {
    let a = CookieBuilder::new("a".to_string(), "1".to_string()).build();
    let b = CookieBuilder::new("b".to_string(), "2".to_string()).build();
    let wire = Response::new().cookie("a", a).cookie("b", b).build().to_string();
    assert!(wire.contains("Set-Cookie: a=1; b=2\r\n"));
}

#[test]
fn builder_headers() {
    let b = Response::new().header("X-Test", "yes").content_type("application/json");
    assert_eq!(b.get_header("X-Test").unwrap().as_str(), "yes");
    assert_eq!(b.get_header("Content-Type").unwrap().as_str(), "application/json");
    assert!(b.get_header("Missing").is_none());
}

#[test]
fn builder_body_sets_headers() {
    let b = Response::new().body("abc");
    assert_eq!(b.get_header("Content-Length").unwrap().as_str(), "3");
    assert_eq!(b.get_header("Content-Type").unwrap().as_str(), "text/plain");
}

#[test]
fn builder_get_cookie() {
    let c = CookieBuilder::new("k".to_string(), "v".to_string()).build();
    let b = Response::new().cookie("k", c);
    assert_eq!(b.get_cookie("k").unwrap().value, "v");
    assert!(b.get_cookie("x").is_none());
}

#[test]
fn status_code_mappings() {
    assert_eq!(HttpStatusCode::from_usize(404).unwrap().to_string(), "404 Not Found");
    assert_eq!(HttpStatusCode::from_usize(418).unwrap().to_string(), "418 I'm a teapot");
    assert_eq!(HttpStatusCode::from_usize(999).unwrap_err(), -1i8);
    assert_eq!(HttpStatusCode::OK.usize(), 200);
    assert_eq!(HttpStatusCode::InternalServerError.usize(), 500);
    let s = HttpStatusCode::from_usize(HttpStatusCode::Gone.usize());
    assert_eq!(s.unwrap().usize(), 410);
}

#[test]
fn method_and_version_text() {
    assert_eq!(HttpMethod::Get.to_string(), "GET");
    assert_eq!(HttpMethod::Options.to_string(), "OPTIONS");
    assert_eq!(HttpVersion::HTTP_1_1.to_string(), "HTTP/1.1");
    assert_eq!(HttpVersion::HTTP_0_9.to_string(), "HTTP/0.9");
}

#[test]
fn decimal_rendering() {
    assert_eq!(server::decimal::render_u64(0), "0");
    assert_eq!(server::decimal::render_u64(10), "10");
    assert_eq!(server::decimal::render_u64(12345), "12345");
    assert_eq!(server::decimal::render_u64(u64::MAX), "18446744073709551615");
}

#[test]
fn decimal_parsing() {
    assert_eq!(server::decimal::parse_u64("0"), Some(0));
    assert_eq!(server::decimal::parse_u64("3600"), Some(3600));
    assert_eq!(server::decimal::parse_u64("18446744073709551615"), Some(u64::MAX));
    assert_eq!(server::decimal::parse_u64("18446744073709551616"), None);
    assert_eq!(server::decimal::parse_u64(""), None);
    assert_eq!(server::decimal::parse_u64("12a"), None);
    assert_eq!(server::decimal::parse_u64("-1"), None);
}
