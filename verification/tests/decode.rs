//! Decoding raw requests.

use server::method::HttpMethod;
use server::request::{DecodeError, Request};
use server::version::HttpVersion;

#[test]
fn decode_get_with_query() {
    let r = Request::from_str("GET /hello/world?x=1 HTTP/1.1\r\nHost: a\r\n\r\n").unwrap();
    assert_eq!(r.method, HttpMethod::Get);
    assert_eq!(r.uri, "/hello/world");
    assert_eq!(r.get_string, "x=1");
    assert_eq!(r.version, HttpVersion::HTTP_1_1);
    assert_eq!(r.headers.len(), 1);
    assert_eq!(r.headers.get("Host").unwrap().as_str(), "a");
    assert_eq!(r.cookies.len(), 0);
    assert_eq!(r.body, "");
}

#[test]
fn decode_without_query() {
    let r = Request::from_str("GET /abc HTTP/1.1\r\n\r\n").unwrap();
    assert_eq!(r.uri, "/abc");
    assert_eq!(r.get_string, "");
}

#[test]
fn decode_versions() {
    let v = |s: &str| Request::from_str(s).unwrap().version;
    assert_eq!(v("GET / HTTP/0.9\r\n\r\n"), HttpVersion::HTTP_0_9);
    assert_eq!(v("GET / HTTP/1.0\r\n\r\n"), HttpVersion::HTTP_1_0);
    assert_eq!(v("GET / HTTP/1.1\r\n\r\n"), HttpVersion::HTTP_1_1);
    assert_eq!(v("GET / HTTP/2.0\r\n\r\n"), HttpVersion::HTTP_2_0);
    assert_eq!(v("GET / HTTP/3.0\r\n\r\n"), HttpVersion::HTTP_3_0);
    // Any unknown major digit is the deliberate 3.0 catch-all.
    assert_eq!(v("GET / HTTP/9.0\r\n\r\n"), HttpVersion::HTTP_3_0);
    // After `1`, any minor other than 0 reads as 1.1.
    assert_eq!(v("GET / HTTP/1.7\r\n\r\n"), HttpVersion::HTTP_1_1);
}

#[test]
fn decode_methods() {
    let m = |s: &str| Request::from_str(s).unwrap().method;
    assert_eq!(m("POST / HTTP/1.1\r\n\r\n"), HttpMethod::Post);
    assert_eq!(m("PUT / HTTP/1.1\r\n\r\n"), HttpMethod::Put);
    assert_eq!(m("PATCH / HTTP/1.1\r\n\r\n"), HttpMethod::Patch);
    assert_eq!(m("DELETE / HTTP/1.1\r\n\r\n"), HttpMethod::Delete);
    assert_eq!(m("OPTIONS / HTTP/1.1\r\n\r\n"), HttpMethod::Options);
}

#[test]
fn decode_body_kept_verbatim() {
    let r = Request::from_str("POST /x HTTP/1.1\r\nA: b\r\n\r\nhello world").unwrap();
    assert_eq!(r.body, "hello world");
    assert_eq!(r.headers.get("A").unwrap().as_str(), "b");
}

#[test]
fn decode_cookie_header() {
    let r = Request::from_str("GET / HTTP/1.1\r\nCookie: session=abc; Secure\r\n\r\n").unwrap();
    assert_eq!(r.cookies.len(), 1);
    let c = r.cookies.get("session").unwrap();
    assert_eq!(c.name, "session");
    assert_eq!(c.value, "abc");
    assert!(c.secure);
    assert_eq!(r.headers.len(), 0);
}

#[test]
fn decode_header_last_wins() {
    let r = Request::from_str("GET / HTTP/1.1\r\nA: 1\r\nA: 2\r\n\r\n").unwrap();
    assert_eq!(r.headers.len(), 1);
    assert_eq!(r.headers.get("A").unwrap().as_str(), "2");
}

#[test]
fn decode_header_value_spaces() {
    let r = Request::from_str("GET / HTTP/1.1\r\nA:    padded value  \r\n\r\n").unwrap();
    assert_eq!(r.headers.get("A").unwrap().as_str(), "padded value");
}

#[test]
fn decode_unknown_method() {
    assert_eq!(
        Request::from_str("FETCH / HTTP/1.1\r\n\r\n").unwrap_err(),
        DecodeError::InvalidMethod
    );
    assert_eq!(
        Request::from_str("get / HTTP/1.1\r\n\r\n").unwrap_err(),
        DecodeError::InvalidMethod
    );
}

#[test]
fn decode_truncated_input() {
    assert_eq!(Request::from_str("").unwrap_err(), DecodeError::UnexpectedEnd);
    assert_eq!(Request::from_str("GET /x").unwrap_err(), DecodeError::UnexpectedEnd);
    assert_eq!(Request::from_str("GET / HTTP/1.1").unwrap_err(), DecodeError::UnexpectedEnd);
    assert_eq!(
        Request::from_str("GET / HTTP/1.1\r\nHost: a\r\n").unwrap_err(),
        DecodeError::UnexpectedEnd
    );
}

#[test]
fn decode_bad_protocol_marker() {
    assert_eq!(
        Request::from_str("GET / XTTP/1.1\r\n\r\n").unwrap_err(),
        DecodeError::InvalidVersion
    );
    assert_eq!(
        Request::from_str("GET / HTTP/1x1\r\n\r\n").unwrap_err(),
        DecodeError::InvalidVersion
    );
}

#[test]
fn decode_malformed_cookie_is_dropped() {
    let r = Request::from_str("GET / HTTP/1.1\r\nCookie: nonsense\r\n\r\n").unwrap();
    assert_eq!(r.cookies.len(), 0);
}
