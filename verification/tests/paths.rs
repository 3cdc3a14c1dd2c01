use axum::{
    body::Body,
    http::{Request, StatusCode},
    routing::{get, MethodFilter, MethodRouter},
    Router,
};
use rustus::config::RustusConf;
use rustus::protocol::extensions::Extensions;
use rustus::protocol::routing::{Place, Verb};
use rustus::routes;
use rustus::server::{build_router, Page};
use tower::{Layer, ServiceExt};
use tower_http::normalize_path::{NormalizePath, NormalizePathLayer};

fn config(base: &str) -> RustusConf {
    RustusConf {
        base_url: base.to_string(),
        tus_extensions: vec![Extensions::Creation, Extensions::Termination],
        allow_empty: false,
        max_file_size: None,
        max_body_size: 4096,
        remove_parts: false,
        hooks: Vec::new(),
        hooks_http_proxy_headers: Vec::new(),
        behind_proxy: false,
        cors: Vec::new(),
    }
}

fn filter(verb: Verb) -> MethodFilter {
    match verb {
        Verb::Options => MethodFilter::OPTIONS,
        Verb::Post => MethodFilter::POST,
        Verb::Head => MethodFilter::HEAD,
        Verb::Patch => MethodFilter::PATCH,
        Verb::Get => MethodFilter::GET,
        Verb::Delete => MethodFilter::DELETE,
    }
}

fn code(status: u16) -> StatusCode {
    StatusCode::from_u16(status).unwrap()
}

/// A router with the routes of an application. A page answers with its status, and a handler of the
/// protocol with one that tells its verb.
fn router(base: &str) -> NormalizePath<Router> {
    let application = build_router(&config(base));
    assert!(application.trim_trailing_slash);
    let mut root: MethodRouter = MethodRouter::new();
    let mut file: MethodRouter = MethodRouter::new();
    for route in application.service.routes {
        let status = verb_status(route.verb);
        let answer = move || async move { status };
        match route.place {
            Place::Root => root = root.on(filter(route.verb), answer),
            Place::File => file = file.on(filter(route.verb), answer),
        }
    }
    let protocol = Router::new().route("/", root).route("/{file_id}", file);
    let mut all = Router::new().nest(&application.service.base, protocol);
    for (path, page) in application.pages {
        let status = match page {
            Page::Health => code(routes::health_check()),
            Page::Metrics => StatusCode::ACCEPTED,
        };
        all = all.route(&path, get(move || async move { status }));
    }
    let all = all.fallback(|| async { code(routes::not_found()) });
    NormalizePathLayer::trim_trailing_slash().layer(all)
}

fn verb_status(verb: Verb) -> StatusCode {
    match verb {
        Verb::Options => StatusCode::IM_A_TEAPOT,
        Verb::Post => StatusCode::CREATED,
        Verb::Head => StatusCode::LOCKED,
        Verb::Patch => StatusCode::NO_CONTENT,
        Verb::Get => StatusCode::GONE,
        Verb::Delete => StatusCode::RESET_CONTENT,
    }
}

fn answer(base: &str, method: &str, path: &str) -> u16 {
    let request = Request::builder()
        .method(method)
        .uri(path)
        .body(Body::empty())
        .unwrap();
    let runtime = tokio::runtime::Builder::new_current_thread().build().unwrap();
    let response = runtime.block_on(router(base).oneshot(request)).unwrap();
    response.status().as_u16()
}

#[test]
fn pages_are_met() {
    assert_eq!(answer("files", "GET", "/health"), 200);
    assert_eq!(answer("files", "HEAD", "/health"), 200);
    assert_eq!(answer("files", "GET", "/metrics"), 202);
    assert_eq!(answer("files", "POST", "/metrics"), 405);
}

#[test]
fn protocol_routes_are_met() {
    for base in ["files", "api/files"] {
        let root = format!("/{}", base);
        let file = format!("/{}/some-id", base);
        assert_eq!(answer(base, "OPTIONS", &root), 418);
        assert_eq!(answer(base, "POST", &root), 201);
        assert_eq!(answer(base, "GET", &root), 405);
        assert_eq!(answer(base, "HEAD", &file), 423);
        assert_eq!(answer(base, "PATCH", &file), 204);
        assert_eq!(answer(base, "DELETE", &file), 205);
        assert_eq!(answer(base, "DELETE", &format!("/{}/a%2Fb", base)), 205);
        assert_eq!(answer(base, "GET", &file), 405);
    }
}

#[test]
fn base_may_be_the_path_of_a_page() {
    assert_eq!(answer("health", "GET", "/health"), 200);
    assert_eq!(answer("health", "HEAD", "/health"), 200);
    assert_eq!(answer("health", "POST", "/health"), 201);
    assert_eq!(answer("health", "PATCH", "/health/some-id"), 204);
}

#[test]
fn other_paths_are_not_found() {
    for path in ["/", "/file", "/files/a/b", "/healthy", "/health/a", "/filesa", "/a/files"] {
        assert_eq!(answer("files", "GET", path), 404);
        assert_eq!(answer("files", "POST", path), 404);
    }
}

#[test]
fn trailing_slash_makes_no_difference() {
    for path in ["/health", "/metrics", "/files", "/files/some-id", "/nothing", "/"] {
        for method in ["GET", "HEAD", "POST", "PATCH", "OPTIONS"] {
            let plain = answer("files", method, path);
            assert_eq!(answer("files", method, &format!("{}/", path)), plain);
            assert_eq!(answer("files", method, &format!("{}//", path)), plain);
        }
    }
}
