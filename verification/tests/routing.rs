//! Registering routes and resolving request paths.

use server::method::HttpMethod as M;
use server::response::Response;
use server::router::Router;
use server::status::HttpStatusCode;
use server::strmap::StringMap;

#[test]
fn literal_route_resolves_exactly() {
    let router: Router<i32> = Router::new().get("/hello/world", 7);
    let mut params: StringMap<String> = StringMap::new();
    let found = router.find_route(server::method::HttpMethod::Get, "/hello/world", &mut params);
    assert_eq!(found.copied(), Some(7));
    assert_eq!(params.len(), 0);
}

#[test]
fn param_route_binds_segment() {
    let router: Router<i32> = Router::new().get("/hello/:user", 1);
    let mut params: StringMap<String> = StringMap::new();
    let found = router.find_route(server::method::HttpMethod::Get, "/hello/Ada", &mut params);
    assert_eq!(found.copied(), Some(1));
    assert_eq!(params.len(), 1);
    assert_eq!(params.get("user").unwrap().as_str(), "Ada");
}

#[test]
fn literal_beats_param() {
    let router: Router<i32> = Router::new().get("/hello/static", 1).get("/hello/:user", 2);
    let mut params: StringMap<String> = StringMap::new();
    let found = router.find_route(server::method::HttpMethod::Get, "/hello/static", &mut params);
    assert_eq!(found.copied(), Some(1));
    assert_eq!(params.len(), 0);
    let mut params2: StringMap<String> = StringMap::new();
    let other = router.find_route(server::method::HttpMethod::Get, "/hello/moon", &mut params2);
    assert_eq!(other.copied(), Some(2));
    assert_eq!(params2.get("user").unwrap().as_str(), "moon");
}

#[test]
fn reregistration_last_wins() {
    let router: Router<i32> = Router::new().get("/a/b", 1).get("/a/b", 2);
    let mut params: StringMap<String> = StringMap::new();
    let found = router.find_route(server::method::HttpMethod::Get, "/a/b", &mut params);
    assert_eq!(found.copied(), Some(2));
}

#[test]
fn root_route() {
    let router: Router<i32> = Router::new().get("/", 9);
    let mut params: StringMap<String> = StringMap::new();
    let found = router.find_route(server::method::HttpMethod::Get, "/", &mut params);
    assert_eq!(found.copied(), Some(9));
}

#[test]
fn trailing_slash_tolerated() {
    let router: Router<i32> = Router::new().get("hello", 3);
    let mut params: StringMap<String> = StringMap::new();
    let found = router.find_route(server::method::HttpMethod::Get, "/hello/", &mut params);
    assert_eq!(found.copied(), Some(3));
}

#[test]
fn methods_have_separate_tables() {
    let router: Router<i32> = Router::new().get("/x", 1).post("/x", 2);
    let mut params: StringMap<String> = StringMap::new();
    assert_eq!(
        router.find_route(server::method::HttpMethod::Get, "/x", &mut params).copied(),
        Some(1)
    );
    assert_eq!(
        router.find_route(server::method::HttpMethod::Post, "/x", &mut params).copied(),
        Some(2)
    );
    assert!(router.find_route(server::method::HttpMethod::Delete, "/x", &mut params).is_none());
}

#[test]
fn deep_params_bind_each_level() {
    let router: Router<i32> = Router::new().get("/a/:x/:y", 5);
    let mut params: StringMap<String> = StringMap::new();
    let found = router.find_route(server::method::HttpMethod::Get, "/a/one/two", &mut params);
    assert_eq!(found.copied(), Some(5));
    assert_eq!(params.get("x").unwrap().as_str(), "one");
    assert_eq!(params.get("y").unwrap().as_str(), "two");
}

#[test]
fn unmatched_path_is_not_found() {
    let router: Router<i32> = Router::new().get("/a", 1);
    let mut params: StringMap<String> = StringMap::new();
    assert!(router.find_route(server::method::HttpMethod::Get, "/nothing", &mut params).is_none());
    assert_eq!(router.static_candidates("/nothing").len(), 0);
    // The embedding application then answers 404 with an empty body.
    let wire = Response::new().status(HttpStatusCode::NotFound).build().to_string();
    assert!(wire.starts_with("404 Not Found\r\n"));
    assert!(wire.ends_with("\r\n\r\n"));
}

#[test]
fn static_prefix_resolves_file_names() {
    let router: Router<i32> = Router::new().serve_dir("/", "/assets");
    let candidates = router.static_candidates("/index.html");
    assert_eq!(candidates.len(), 1);
    assert_eq!(candidates[0].0, "./assets/index.html");
    assert_eq!(candidates[0].1, "text/html");
    // A successful read is then served as 200 with the file's bytes and
    // the suggested content type.
    let wire = Response::new()
        .body("<h1>hi</h1>")
        .content_type(&candidates[0].1)
        .build()
        .to_string();
    assert!(wire.starts_with("200 OK\r\n"));
    assert!(wire.contains("Content-Type: text/html"));
    assert!(wire.ends_with("<h1>hi</h1>"));
}

#[test]
fn static_prefix_without_slash_is_normalized() {
    let router: Router<i32> = Router::new().serve_dir("files", "data");
    let candidates = router.static_candidates("/files/a.css");
    assert_eq!(candidates.len(), 1);
    assert_eq!(candidates[0].0, "./data//a.css");
    assert_eq!(candidates[0].1, "text/css");
}

#[test]
fn r_serve_dir_keeps_paths_as_given() {
    let mut router: Router<i32> = Router::new();
    router.r_serve_dir("/s", "/static");
    let candidates = router.static_candidates("/s/pic.png");
    assert_eq!(candidates.len(), 1);
    assert_eq!(candidates[0].0, "./static//pic.png");
    assert_eq!(candidates[0].1, "image/png");
}

#[test]
fn mutating_registration_matches_builder() {
    let mut router: Router<i32> = Router::new();
    router.r_get("/m", 1);
    router.r_post("/m", 2);
    router.r_put("/m", 3);
    router.r_patch("/m", 4);
    router.r_delete("/m", 5);
    router.r_options("/m", 6);
    let mut params: StringMap<String> = StringMap::new();
    assert_eq!(router.find_route(M::Get, "/m", &mut params).copied(), Some(1));
    assert_eq!(router.find_route(M::Post, "/m", &mut params).copied(), Some(2));
    assert_eq!(router.find_route(M::Put, "/m", &mut params).copied(), Some(3));
    assert_eq!(router.find_route(M::Patch, "/m", &mut params).copied(), Some(4));
    assert_eq!(router.find_route(M::Delete, "/m", &mut params).copied(), Some(5));
    assert_eq!(router.find_route(M::Options, "/m", &mut params).copied(), Some(6));
}

#[test]
fn repeated_param_name_outer_wins() {
    let router: Router<i32> = Router::new().get("/a/:x/:x", 8);
    let mut params: StringMap<String> = StringMap::new();
    let found = router.find_route(M::Get, "/a/one/two", &mut params);
    assert_eq!(found.copied(), Some(8));
    // Bindings are collected deepest first, so the outer segment's value
    // overwrites the inner one.
    assert_eq!(params.len(), 1);
    assert_eq!(params.get("x").unwrap().as_str(), "one");
}
