use routerway::cache::FileCache;
use routerway::config::{ApiConfig, Config, ConfigError, ServerConfig, StaticConfig};
use routerway::response::{
    cors_header_list, create_cors_response, create_error_response, content_response,
    default_error_response, error_file_name, error_page_response, HttpResponse,
};
use routerway::server::{
    forward_or_refuse, handle_decoded_at, handle_error_page, handle_error_page_at,
    handle_error_page_read, handle_file_read_at, handle_forward_failure_at, handle_proxy_request, handle_request, handle_request_at,
    handle_static_file, handle_static_file_at, internal_error_response, static_file_response,
    Dispatch, HttpServer, SWEEP_INTERVAL_SECS, SWEEP_MAX_AGE_SECS,
};
use routerway::loading::{LoadProgress, LoadStep};
use std::path::PathBuf;

fn config(routes: Vec<(&str, &str)>) -> Config {
    Config {
        server: ServerConfig {
            port: 8080,
            name: "RouterWay".to_string(),
            max_cache_size: "1MB".to_string(),
            cache_enabled: true,
            max_connections: 100,
        },
        static_config: StaticConfig {
            root_directory: PathBuf::from("Public"),
            error_pages_directory: PathBuf::from("Public/Errors"),
        },
        api: routes
            .into_iter()
            .map(|(from, to)| ApiConfig {
                name: "route".to_string(),
                from: from.to_string(),
                to: to.to_string(),
            })
            .collect(),
    }
}

fn cache() -> FileCache {
    FileCache::new(PathBuf::from("Public"), 1 << 20, true)
}

fn pairs(list: &[(&str, &str)]) -> Vec<(String, String)> {
    list.iter().map(|(n, v)| (n.to_string(), v.to_string())).collect()
}

fn header<'a>(response: &'a HttpResponse, name: &str) -> Option<&'a str> {
    response.headers.iter().find(|(n, _)| n == name).map(|(_, v)| v.as_str())
}

fn response(step: Dispatch) -> HttpResponse {
    match step {
        Dispatch::Respond(r) => r,
        other => panic!("no response but {:?}", other),
    }
}

fn written_page(status: u16, message: &str) -> String {
    format!(
        "<!DOCTYPE html>\n<html>\n<head>\n    <meta charset=\"utf-8\">\n    <title>{} - RouterWay</title>\n    <style>\n        body {{ font-family: Arial, sans-serif; text-align: center; margin-top: 50px; }}\n        .error {{ color: #e74c3c; }}\n    </style>\n</head>\n<body>\n    <h1 class=\"error\">{}</h1>\n    <p>{}</p>\n    <hr>\n    <small>RouterWay Server</small>\n</body>\n</html>",
        status, status, message
    )
}

#[test]
fn the_preflight_answer_carries_the_permissive_headers() {
    let r = create_cors_response(200, Vec::new());
    assert_eq!(r.status, 200);
    assert!(r.body.is_empty());
    assert_eq!(
        r.headers,
        pairs(&[
            ("Access-Control-Allow-Origin", "*"),
            ("Access-Control-Allow-Methods", "GET, POST, PUT, DELETE, OPTIONS"),
            ("Access-Control-Allow-Headers", "Content-Type, Authorization"),
            ("Server", "RouterWay"),
        ])
    );
    assert_eq!(cors_header_list(), r.headers);
    let other = create_cors_response(204, vec![1, 2]);
    assert_eq!(other.status, 204);
    assert_eq!(other.body, vec![1, 2]);
}

#[test]
fn a_served_file_may_be_kept_for_an_hour() {
    let r = content_response("image/png", vec![1, 2, 3]);
    assert_eq!(r.status, 200);
    assert_eq!(r.body, vec![1, 2, 3]);
    assert_eq!(
        r.headers,
        pairs(&[
            ("Content-Type", "image/png"),
            ("Cache-Control", "public, max-age=3600"),
            ("Access-Control-Allow-Origin", "*"),
            ("Server", "RouterWay"),
        ])
    );
}

#[test]
fn an_error_page_is_served_as_html_under_its_status() {
    let r = error_page_response(503, b"<p>busy</p>".to_vec());
    assert_eq!(r.status, 503);
    assert_eq!(r.body, b"<p>busy</p>".to_vec());
    assert_eq!(
        r.headers,
        pairs(&[
            ("Content-Type", "text/html; charset=utf-8"),
            ("Access-Control-Allow-Origin", "*"),
            ("Server", "RouterWay"),
        ])
    );
}

#[test]
fn the_written_page_shows_status_and_message() {
    let r = create_error_response(403, "Access denied");
    assert_eq!(r.status, 403);
    assert_eq!(String::from_utf8(r.body).unwrap(), written_page(403, "Access denied"));
    assert_eq!(
        r.headers,
        pairs(&[
            ("Content-Type", "text/html; charset=utf-8"),
            ("Access-Control-Allow-Origin", "*"),
            ("Server", "RouterWay"),
        ])
    );
    let r = create_error_response(7, "");
    assert_eq!(String::from_utf8(r.body).unwrap(), written_page(7, ""));
    let r = create_error_response(65535, "é<>");
    assert_eq!(String::from_utf8(r.body).unwrap(), written_page(65535, "é<>"));
}

#[test]
fn each_status_has_its_error_file() {
    assert_eq!(error_file_name(404), "404.html");
    assert_eq!(error_file_name(400), "400.html");
    assert_eq!(error_file_name(403), "403.html");
    assert_eq!(error_file_name(500), "500.html");
    assert_eq!(error_file_name(502), "502.html");
    assert_eq!(error_file_name(503), "503.html");
    assert_eq!(error_file_name(401), "error.html");
    assert_eq!(error_file_name(200), "error.html");
    assert_eq!(error_file_name(0), "error.html");
}

#[test]
fn each_status_has_its_fixed_message() {
    let body = |s: u16| String::from_utf8(default_error_response(s).body).unwrap();
    assert_eq!(body(404), written_page(404, "404 - 页面未找到"));
    assert_eq!(body(500), written_page(500, "500 - 内部服务器错误"));
    assert_eq!(body(403), written_page(403, "403 - 访问被拒绝"));
    assert_eq!(body(502), written_page(502, "发生错误"));
    assert_eq!(body(400), written_page(400, "发生错误"));
    assert_eq!(default_error_response(502).status, 502);
}

#[test]
fn a_cached_index_page_answers_the_root() {
    let mut c = cache();
    c.insert_at("index.html".to_string(), b"<h1>home</h1>".to_vec(), "text/html".to_string(), 1);
    let r = response(handle_request_at("GET", "/", &config(vec![]), &mut c, 50));
    assert_eq!(r.status, 200);
    assert_eq!(r.body, b"<h1>home</h1>".to_vec());
    assert_eq!(header(&r, "Content-Type"), Some("text/html"));
    assert_eq!(header(&r, "Cache-Control"), Some("public, max-age=3600"));
    assert_eq!(header(&r, "Access-Control-Allow-Origin"), Some("*"));
    assert_eq!(header(&r, "Server"), Some("RouterWay"));
    let entry = c.get_at("index.html", 60).unwrap();
    assert_eq!(entry.access_count, 2);
    for path in ["", "/index.html", "index.html", "//"] {
        let r = response(handle_static_file_at(path, &mut c, 70));
        assert_eq!(r.body, b"<h1>home</h1>".to_vec());
    }
}

#[test]
fn a_matched_route_is_forwarded_to_the_rewritten_target() {
    let cfg = config(vec![("/api", "http://backend/v1")]);
    let mut c = cache();
    match handle_request_at("GET", "/api/users", &cfg, &mut c, 1) {
        Dispatch::Forward { route, target } => {
            assert_eq!(route, 0);
            assert_eq!(target, "http://backend/v1/users");
        }
        other => panic!("not forwarded but {:?}", other),
    }
    match handle_request_at("POST", "/api/a%20b", &cfg, &mut c, 1) {
        Dispatch::Respond(r) => {
            assert_eq!(r.status, 400);
            assert_eq!(String::from_utf8(r.body).unwrap(), written_page(400, "Invalid proxy target"));
        }
        other => panic!("not refused but {:?}", other),
    }
    assert_eq!(c.get_stats(), (0, 0, 1 << 20));
}

#[test]
fn routes_are_tried_in_their_order() {
    let cfg = config(vec![("/api/v2", "http://new"), ("/api", "http://old"), ("/api/v2", "http://x")]);
    let mut c = cache();
    c.insert_at("api/v2/a".to_string(), vec![1], "t/t".to_string(), 1);
    match handle_request_at("GET", "/api/v2/a", &cfg, &mut c, 2) {
        Dispatch::Forward { route, target } => assert_eq!((route, target.as_str()), (0, "http://new/a")),
        other => panic!("not forwarded but {:?}", other),
    }
    match handle_request_at("GET", "/api/v1/a", &cfg, &mut c, 2) {
        Dispatch::Forward { route, target } => assert_eq!((route, target.as_str()), (1, "http://old/v1/a")),
        other => panic!("not forwarded but {:?}", other),
    }
    match handle_request_at("GET", "/%61pi/x", &cfg, &mut c, 2) {
        Dispatch::Forward { route, target } => assert_eq!((route, target.as_str()), (1, "http://old/x")),
        other => panic!("not forwarded but {:?}", other),
    }
    assert_eq!(c.get_at("api/v2/a", 3).unwrap().access_count, 1);
}

#[test]
fn a_proxied_path_is_not_checked_for_safety() {
    let cfg = config(vec![("/api", "http://backend")]);
    let mut c = cache();
    match handle_request_at("GET", "/api/../x", &cfg, &mut c, 2) {
        Dispatch::Forward { target, .. } => assert_eq!(target, "http://backend/../x"),
        other => panic!("not forwarded but {:?}", other),
    }
}

#[test]
fn a_rewritten_target_is_forwarded_only_if_valid() {
    let api = ApiConfig { name: "n".into(), from: "/api".into(), to: "http://backend/v1".into() };
    match handle_proxy_request(3, &api, "/api/users") {
        Dispatch::Forward { route, target } => assert_eq!((route, target.as_str()), (3, "http://backend/v1/users")),
        other => panic!("not forwarded but {:?}", other),
    }
    let bad = ApiConfig { name: "n".into(), from: "/api".into(), to: "http://bad host".into() };
    assert_eq!(response(handle_proxy_request(0, &bad, "/api/users")).status, 400);
    match forward_or_refuse(2, "anything".to_string(), true) {
        Dispatch::Forward { route, target } => assert_eq!((route, target.as_str()), (2, "anything")),
        other => panic!("not forwarded but {:?}", other),
    }
    let r = response(forward_or_refuse(2, "http://fine".to_string(), false));
    assert_eq!(r.status, 400);
    assert_eq!(String::from_utf8(r.body).unwrap(), written_page(400, "Invalid proxy target"));
}

#[test]
fn a_path_with_a_parent_segment_is_refused() {
    let mut c = cache();
    c.insert_at("secret".to_string(), vec![1], "t/t".to_string(), 1);
    c.insert_at("../secret".to_string(), vec![2], "t/t".to_string(), 1);
    let r = response(handle_request_at("GET", "/../secret", &config(vec![]), &mut c, 9));
    assert_eq!(r.status, 403);
    assert_eq!(header(&r, "Access-Control-Allow-Origin"), Some("*"));
    assert_eq!(String::from_utf8(r.body).unwrap(), written_page(403, "Access denied"));
    for path in ["/a/../b", "/a//b", "/..", "a/..", "/%2e%2e/secret", "/a/%2F/b", "/x/..%2Fy", "///"] {
        let r = response(handle_request_at("GET", path, &config(vec![]), &mut c, 9));
        assert_eq!(r.status, 403, "path {:?}", path);
    }
    assert_eq!(c.get_stats(), (2, 2, 1 << 20));
    assert_eq!(c.get_at("secret", 10).unwrap().access_count, 1);
}

#[test]
fn a_doubled_slash_at_the_start_is_not_seen_after_normalization() {
    let mut c = cache();
    c.insert_at("x".to_string(), vec![7], "t/t".to_string(), 1);
    let r = response(handle_static_file_at("//x", &mut c, 2));
    assert_eq!((r.status, r.body), (200, vec![7]));
    match handle_static_file_at("//y", &mut c, 2) {
        Dispatch::ReadFile { path } => assert_eq!(path, "/y"),
        other => panic!("not a read but {:?}", other),
    }
}

#[test]
fn a_file_that_is_not_cached_is_read_from_disk() {
    let mut c = cache();
    match handle_request_at("GET", "/missing.txt", &config(vec![]), &mut c, 1) {
        Dispatch::ReadFile { path } => assert_eq!(path, "missing.txt"),
        other => panic!("not a read but {:?}", other),
    }
    match handle_request_at("DELETE", "/a%20b/c%2Ed", &config(vec![]), &mut c, 1) {
        Dispatch::ReadFile { path } => assert_eq!(path, "a b/c.d"),
        other => panic!("not a read but {:?}", other),
    }
    match handle_request_at("GET", "/", &config(vec![]), &mut c, 1) {
        Dispatch::ReadFile { path } => assert_eq!(path, "index.html"),
        other => panic!("not a read but {:?}", other),
    }
    let r = static_file_response("missing.txt", b"found after all".to_vec());
    assert_eq!(r.status, 200);
    assert_eq!(r.body, b"found after all".to_vec());
    assert_eq!(header(&r, "Content-Type"), Some("text/plain"));
    assert_eq!(header(&r, "Cache-Control"), Some("public, max-age=3600"));
    assert_eq!(header(&static_file_response("a/b", vec![]), "Content-Type"), Some("application/octet-stream"));
}

#[test]
fn a_missing_file_without_an_error_page_gets_the_written_page() {
    let mut c = cache();
    let path = match handle_request_at("GET", "/missing.txt", &config(vec![]), &mut c, 1) {
        Dispatch::ReadFile { path } => path,
        other => panic!("not a read but {:?}", other),
    };
    assert_eq!(path, "missing.txt");
    let (status, file_name) = match handle_file_read_at(&path, None, &mut c, 2) {
        Dispatch::ReadErrorPage { status, file_name } => (status, file_name),
        other => panic!("not a read but {:?}", other),
    };
    assert_eq!((status, file_name.as_str()), (404, "404.html"));
    let r = handle_error_page_read(status, None);
    assert_eq!(r.status, 404);
    let body = String::from_utf8(r.body).unwrap();
    assert!(body.contains("404"));
    assert!(body.contains("<title>404 - RouterWay</title>"));
    assert!(body.contains("<h1 class=\"error\">404</h1>"));
    assert!(body.contains("<p>404 - 页面未找到</p>"));
    assert_eq!(header(&default_error_response(404), "Access-Control-Allow-Origin"), Some("*"));
}

#[test]
fn a_cached_error_page_is_served_under_the_status() {
    let mut c = cache();
    c.insert_at("Errors/404.html".to_string(), b"<p>gone</p>".to_vec(), "text/plain".to_string(), 1);
    c.insert_at("Errors/error.html".to_string(), b"<p>oops</p>".to_vec(), "text/html".to_string(), 1);
    let r = response(handle_error_page_at(404, &mut c, 5));
    assert_eq!(r.status, 404);
    assert_eq!(r.body, b"<p>gone</p>".to_vec());
    assert_eq!(header(&r, "Content-Type"), Some("text/html; charset=utf-8"));
    assert_eq!(header(&r, "Cache-Control"), None);
    let r = response(handle_error_page_at(418, &mut c, 5));
    assert_eq!((r.status, r.body), (418, b"<p>oops</p>".to_vec()));
    match handle_error_page_at(502, &mut c, 5) {
        Dispatch::ReadErrorPage { status, file_name } => assert_eq!((status, file_name.as_str()), (502, "502.html")),
        other => panic!("not a read but {:?}", other),
    }
    assert_eq!(c.get_at("Errors/404.html", 6).unwrap().access_count, 2);
    assert_eq!(response(handle_error_page(404, &mut c)).body, b"<p>gone</p>".to_vec());
}

#[test]
fn a_preflight_request_is_answered_at_once() {
    let cfg = config(vec![("/", "http://everything")]);
    let mut c = cache();
    let r = response(handle_request_at("OPTIONS", "/%FF/../x", &cfg, &mut c, 1));
    assert_eq!(r.status, 200);
    assert!(r.body.is_empty());
    assert_eq!(r.headers, cors_header_list());
    match handle_request_at("options", "/x", &cfg, &mut c, 1) {
        Dispatch::Forward { .. } => {}
        other => panic!("not forwarded but {:?}", other),
    }
}

#[test]
fn a_path_that_does_not_decode_is_refused() {
    let cfg = config(vec![("/", "http://everything")]);
    let mut c = cache();
    let r = response(handle_request_at("GET", "/%FF", &cfg, &mut c, 1));
    assert_eq!(r.status, 400);
    assert_eq!(String::from_utf8(r.body).unwrap(), written_page(400, "Invalid path encoding"));
    let r = response(handle_decoded_at(None, &cfg.api, &mut c, 1));
    assert_eq!(r.status, 400);
    match handle_decoded_at(Some("/x".to_string()), &cfg.api, &mut c, 1) {
        Dispatch::Forward { target, .. } => assert_eq!(target, "http://everythingx"),
        other => panic!("not forwarded but {:?}", other),
    }
}

#[test]
fn requests_are_decided_at_the_current_time() {
    let cfg = config(vec![("/api", "http://backend/v1")]);
    let mut c = cache();
    c.insert_async("a.txt".to_string(), vec![1], "text/plain".to_string());
    assert_eq!(response(handle_request("GET", "/a.txt", &cfg, &mut c)).body, vec![1]);
    assert_eq!(response(handle_static_file("a.txt", &mut c)).body, vec![1]);
    assert_eq!(response(handle_request("GET", "/a/../b", &cfg, &mut c)).status, 403);
    assert!(matches!(handle_request("GET", "/api/x", &cfg, &mut c), Dispatch::Forward { .. }));
    assert!(matches!(handle_request("GET", "/b.txt", &cfg, &mut c), Dispatch::ReadFile { .. }));
}

#[test]
fn a_server_is_made_from_its_configuration() {
    let server = HttpServer::new(config(vec![("/api", "http://backend/v1")])).unwrap();
    assert_eq!(server.cache_stats(), (0, 0, 1024 * 1024));
    assert_eq!(server.config().get_port(), 8080);
    assert_eq!(server.config().get_root_directory(), &PathBuf::from("Public"));
    server.cache_insert("index.html".to_string(), vec![3], "text/html".to_string());
    assert_eq!(server.cache_stats(), (1, 1, 1024 * 1024));
    assert_eq!(response(server.handle_request("GET", "/")).body, vec![3]);
    assert_eq!(response(server.handle_request("GET", "/a/../b")).status, 403);
    assert_eq!(response(server.handle_request("OPTIONS", "/")).status, 200);
    assert!(matches!(server.handle_request("GET", "/api/x"), Dispatch::Forward { route: 0, .. }));
    assert!(matches!(server.handle_request("GET", "/b"), Dispatch::ReadFile { .. }));
    server.sweep();
    assert_eq!(server.cache_stats(), (1, 1, 1024 * 1024));
    assert_eq!((SWEEP_INTERVAL_SECS, SWEEP_MAX_AGE_SECS), (300, 3600));
}

#[test]
fn a_server_is_not_made_from_an_unreadable_budget() {
    let mut cfg = config(vec![]);
    cfg.server.max_cache_size = "a lot".to_string();
    assert!(matches!(HttpServer::new(cfg), Err(ConfigError::InvalidCacheSize { .. })));
    let mut cfg = config(vec![]);
    cfg.server.cache_enabled = false;
    cfg.server.max_cache_size = "2k".to_string();
    let server = HttpServer::new(cfg).unwrap();
    assert!(server.initialize().is_none());
    assert_eq!(server.cache_stats(), (0, 0, 2048));
    server.cache_insert("a".to_string(), vec![1], "t/t".to_string());
    assert_eq!(server.load_file("b.txt", vec![1], 1), 0);
    assert_eq!(server.cache_stats(), (0, 0, 2048));
    assert_eq!(server.plan_file("b.txt", 1), LoadStep::Refuse);
    assert_eq!(server.plan_file(".b.txt", 1), LoadStep::Skip);
}

#[test]
fn a_server_is_filled_file_by_file() {
    let mut cfg = config(vec![]);
    cfg.server.max_cache_size = "10".to_string();
    let server = HttpServer::new(cfg).unwrap();
    let mut progress = server.initialize().expect("caching is on");
    assert_eq!(progress, LoadProgress { loaded_count: 0, total_size: 0, max_size: 10 });
    assert_eq!(server.plan_file("a.css", 6), LoadStep::Read);
    let loaded = server.load_file("css\\a.css", vec![b'x'; 6], 77);
    assert_eq!(loaded, 6);
    assert!(progress.record(loaded));
    assert_eq!(server.plan_file("b.css", 5), LoadStep::Refuse);
    assert!(progress.record(0));
    assert_eq!(server.plan_file("c.css~", 1), LoadStep::Skip);
    assert_eq!(server.load_file("d.css", vec![b'x'; 5], 77), 0);
    assert_eq!(server.cache_stats(), (1, 6, 10));
    assert_eq!(progress, LoadProgress { loaded_count: 2, total_size: 6, max_size: 10 });
    let r = response(server.handle_request("GET", "/css/a.css"));
    assert_eq!((r.status, r.body.clone()), (200, vec![b'x'; 6]));
    assert_eq!(header(&r, "Content-Type"), Some("text/css"));
}

#[test]
fn a_server_answers_what_follows_a_read() {
    let server = HttpServer::new(config(vec![])).unwrap();
    let r = response(server.handle_file_read("a.txt", Some(vec![1, 2])));
    assert_eq!((r.status, r.body), (200, vec![1, 2]));
    match server.handle_file_read("a.txt", None) {
        Dispatch::ReadErrorPage { status, file_name } => assert_eq!((status, file_name.as_str()), (404, "404.html")),
        other => panic!("not a read but {:?}", other),
    }
    match server.handle_forward_failure() {
        Dispatch::ReadErrorPage { status, file_name } => assert_eq!((status, file_name.as_str()), (502, "502.html")),
        other => panic!("not a read but {:?}", other),
    }
    server.cache_insert("Errors/404.html".to_string(), b"gone".to_vec(), "text/html".to_string());
    server.cache_insert("Errors/502.html".to_string(), b"bad".to_vec(), "text/html".to_string());
    let r = response(server.handle_file_read("a.txt", None));
    assert_eq!((r.status, r.body), (404, b"gone".to_vec()));
    let r = response(server.handle_forward_failure());
    assert_eq!((r.status, r.body), (502, b"bad".to_vec()));
}

#[test]
fn a_server_is_used_through_shared_handles() {
    let mut cfg = config(vec![]);
    cfg.server.max_cache_size = "1000".to_string();
    let server = std::sync::Arc::new(HttpServer::new(cfg).unwrap());
    let handles: Vec<_> = (0..4u8).map(|_| std::sync::Arc::clone(&server)).collect();
    for (t, handle) in handles.iter().enumerate() {
        for i in 0..50u8 {
            let name = format!("t{}/f{}", t, i);
            handle.cache_insert(name.clone(), vec![i; 3], "t/t".to_string());
            let other = &handles[(t + 1) % 4];
            match other.handle_request("GET", &format!("/{}", name)) {
                Dispatch::Respond(r) => assert_eq!((r.status, r.body), (200, vec![i; 3])),
                other => panic!("not served but {:?}", other),
            }
            handle.sweep();
        }
    }
    assert_eq!(server.cache_stats(), (200, 600, 1000));
}

#[test]
fn a_file_that_was_read_is_served() {
    let mut c = cache();
    c.insert_at("Errors/404.html".to_string(), b"<p>gone</p>".to_vec(), "text/html".to_string(), 1);
    let r = response(handle_file_read_at("css/a.css", Some(b"a{}".to_vec()), &mut c, 5));
    assert_eq!((r.status, r.body.clone()), (200, b"a{}".to_vec()));
    assert_eq!(header(&r, "Content-Type"), Some("text/css"));
    assert_eq!(c.get_at("Errors/404.html", 6).unwrap().access_count, 1);
    let r = response(handle_file_read_at("x.bin", Some(Vec::new()), &mut c, 6));
    assert_eq!((r.status, r.body.len()), (200, 0));
    assert_eq!(header(&r, "Content-Type"), Some("application/octet-stream"));
}

#[test]
fn a_file_that_could_not_be_read_is_answered_with_the_cached_error_page() {
    let mut c = cache();
    c.insert_at("Errors/404.html".to_string(), b"<p>gone</p>".to_vec(), "text/html".to_string(), 1);
    let r = response(handle_file_read_at("css/a.css", None, &mut c, 5));
    assert_eq!((r.status, r.body), (404, b"<p>gone</p>".to_vec()));
    let r = response(handle_file_read_at("css/a.css", None, &mut c, 5));
    assert_eq!(r.status, 404);
    assert_eq!(c.get_at("Errors/404.html", 6).unwrap().access_count, 3);
}

#[test]
fn an_error_page_that_was_read_is_served_under_the_status() {
    let r = handle_error_page_read(502, Some(b"<p>bad gateway</p>".to_vec()));
    assert_eq!((r.status, r.body.clone()), (502, b"<p>bad gateway</p>".to_vec()));
    assert_eq!(header(&r, "Content-Type"), Some("text/html; charset=utf-8"));
    let r = handle_error_page_read(502, None);
    assert_eq!(r.status, 502);
    assert_eq!(String::from_utf8(r.body).unwrap(), written_page(502, "发生错误"));
    let r = handle_error_page_read(500, None);
    assert_eq!(String::from_utf8(r.body).unwrap(), written_page(500, "500 - 内部服务器错误"));
}

#[test]
fn a_failed_forwarding_is_answered_with_status_502() {
    let mut c = cache();
    match handle_forward_failure_at(&mut c, 1) {
        Dispatch::ReadErrorPage { status, file_name } => assert_eq!((status, file_name.as_str()), (502, "502.html")),
        other => panic!("not a read but {:?}", other),
    }
    c.insert_at("Errors/502.html".to_string(), b"<p>upstream</p>".to_vec(), "text/html".to_string(), 1);
    let r = response(handle_forward_failure_at(&mut c, 2));
    assert_eq!((r.status, r.body), (502, b"<p>upstream</p>".to_vec()));
    assert_eq!(response(handle_forward_failure_at(&mut c, 3)).status, 502);
}

#[test]
fn a_fault_of_the_server_is_answered_with_status_500() {
    let r = internal_error_response();
    assert_eq!(r.status, 500);
    assert_eq!(String::from_utf8(r.body).unwrap(), written_page(500, "Internal Server Error"));
}
