//! Parsing and building cookies.

use server::cookie::{Cookie, CookieBuilder, CookieError};

#[test]
fn cookie_roundtrip() {
    let c = Cookie::from("session=abc123; Max-Age=3600; Secure").unwrap();
    assert_eq!(c.name, "session");
    assert_eq!(c.value, "abc123");
    assert_eq!(c.max_age, Some(3600));
    assert!(c.secure);
    assert!(!c.http_only);
    assert_eq!(c.path, None);
    assert_eq!(c.domain, None);
    assert_eq!(c.same_site, None);
}

#[test]
fn cookie_all_attributes() {
    let c = Cookie::from("id=7; Path=/app; Domain=example.test; SameSite=Lax; HttpOnly").unwrap();
    assert_eq!(c.path.as_deref(), Some("/app"));
    assert_eq!(c.domain.as_deref(), Some("example.test"));
    assert_eq!(c.same_site.as_deref(), Some("Lax"));
    assert!(c.http_only);
    assert!(!c.secure);
}

#[test]
fn cookie_keys_fold_case() {
    let c = Cookie::from("a=b; PATH=/x; secure").unwrap();
    assert_eq!(c.path.as_deref(), Some("/x"));
    assert!(c.secure);
}

#[test]
fn cookie_value_keeps_embedded_equals() {
    let c = Cookie::from("tok=a=b=c").unwrap();
    assert_eq!(c.name, "tok");
    assert_eq!(c.value, "a=b=c");
}

#[test]
fn cookie_unknown_attribute_ignored() {
    let c = Cookie::from("a=b; Flavor=chocolate").unwrap();
    assert_eq!(c.name, "a");
    assert_eq!(c.value, "b");
}

#[test]
fn cookie_bad_max_age_dropped() {
    let c = Cookie::from("a=b; Max-Age=soon").unwrap();
    assert_eq!(c.max_age, None);
    let c = Cookie::from("a=b; Max-Age=18446744073709551616").unwrap();
    assert_eq!(c.max_age, None);
    let c = Cookie::from("a=b; Max-Age=18446744073709551615").unwrap();
    assert_eq!(c.max_age, Some(u64::MAX));
}

#[test]
fn cookie_missing_separator() {
    assert_eq!(Cookie::from("nonsense").unwrap_err(), CookieError::MissingSeparator);
    assert_eq!(Cookie::from("").unwrap_err(), CookieError::MissingSeparator);
}

#[test]
fn cookie_empty_name() {
    assert_eq!(Cookie::from("=value").unwrap_err(), CookieError::EmptyName);
}

#[test]
fn cookie_builder_sets_fields() {
    let c = CookieBuilder::new("sid".to_string(), "xyz".to_string())
        .path("/".to_string())
        .domain("d.test".to_string())
        .max_age(60)
        .secure(true)
        .http_only(true)
        .same_site("Strict".to_string())
        .build();
    assert_eq!(c.name, "sid");
    assert_eq!(c.value, "xyz");
    assert_eq!(c.path.as_deref(), Some("/"));
    assert_eq!(c.domain.as_deref(), Some("d.test"));
    assert_eq!(c.max_age, Some(60));
    assert!(c.secure);
    assert!(c.http_only);
    assert_eq!(c.same_site.as_deref(), Some("Strict"));
}

#[test]
fn cookie_to_string_is_value() {
    let c = Cookie::from("a=b; Secure").unwrap();
    assert_eq!(c.to_string(), "b");
}
