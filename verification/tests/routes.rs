use weavegate::error::ErrorKind;
use weavegate::routes::bootstrap::{
    bootstrap_request_headers, bootstrap_url_text, build_bootstrap_uri, check_bootstrap_status,
    fetch_timeout_secs, finish_bootstrap_uri, handle_fetch_failure, judge_bootstrap_status,
    url_encode_component, FetchOutcome,
};
use weavegate::routes::document::validate_route_source;
use weavegate::routes::{fetch_routes_defs, AppRoutes, RouteEntry, RoutesDocument};
use weavegate::settings::file::{RoutesBootstrap, RoutesBootstrapOnFailure};
use weavegate::status::status_text;

fn route(source: &str) -> RouteEntry {
    RouteEntry {
        name: None,
        host: None,
        source: source.to_string(),
        target: Some("http://up".to_string()),
        targets: None,
        strip_prefix: None,
    }
}

fn document(routes: Vec<RouteEntry>) -> RoutesDocument {
    RoutesDocument { version: 1, apps: vec![AppRoutes { id: "app1".to_string(), routes }] }
}

fn config() -> RoutesBootstrap {
    RoutesBootstrap {
        url: "http://control/routes".to_string(),
        token_env: None,
        timeout_secs: None,
        cache_path: Some("./routes.cache.json".to_string()),
        on_failure: None,
        client_id: None,
    }
}

fn failed() -> FetchOutcome {
    FetchOutcome::Failed("no answer".to_string())
}

#[test]
fn routes_document_rejects_unsupported_version() {
    let doc = RoutesDocument { version: 2, apps: vec![] };
    assert!(doc.into_proxy_defs().is_err());
}

#[test]
fn version_message() {
    let e = RoutesDocument { version: 4294967295, apps: vec![] }.into_proxy_defs().err().unwrap();
    assert_eq!(e.kind, ErrorKind::DocumentVersion);
    assert_eq!(
        e.message,
        "routes bootstrap: unsupported document version 4294967295 (expected 1)"
    );
    let e = RoutesDocument { version: 0, apps: vec![] }.into_proxy_defs().err().unwrap();
    assert_eq!(e.message, "routes bootstrap: unsupported document version 0 (expected 1)");
}

#[test]
fn routes_of_all_apps_in_order() {
    let mut full = route("/b/**");
    full.name = Some("n".to_string());
    full.host = Some("h".to_string());
    full.target = None;
    full.targets = Some(vec!["http://x".to_string(), "http://y".to_string()]);
    full.strip_prefix = Some("/b".to_string());
    let doc = RoutesDocument {
        version: 1,
        apps: vec![
            AppRoutes { id: "one".to_string(), routes: vec![route("/a")] },
            AppRoutes { id: "none".to_string(), routes: vec![] },
            AppRoutes { id: "two".to_string(), routes: vec![full, route("/c")] },
        ],
    };
    let defs = doc.into_proxy_defs().unwrap();
    let sources: Vec<&str> = defs.iter().map(|d| d.source.as_str()).collect();
    assert_eq!(sources, vec!["/a", "/b/**", "/c"]);
    assert_eq!(defs[1].name.as_deref(), Some("n"));
    assert_eq!(defs[1].host.as_deref(), Some("h"));
    assert_eq!(defs[1].target, None);
    assert_eq!(defs[1].targets, Some(vec!["http://x".to_string(), "http://y".to_string()]));
    assert_eq!(defs[1].strip_prefix.as_deref(), Some("/b"));
    assert!(RoutesDocument { version: 1, apps: vec![] }.into_proxy_defs().unwrap().is_empty());
}

#[test]
fn sources_are_checked() {
    let e = validate_route_source("a/b", "app1").err().unwrap();
    assert_eq!(e.kind, ErrorKind::RouteSource);
    assert_eq!(e.message, "routes bootstrap: source must start with '/' (app=app1): a/b");
    let e = validate_route_source("/a/../b", "app1").err().unwrap();
    assert_eq!(e.kind, ErrorKind::RouteSourceDots);
    assert_eq!(e.message, "routes bootstrap: source must not contain '..' (app=app1): /a/../b");
    assert!(validate_route_source("/a./.b", "app1").is_ok());
    assert!(validate_route_source("", "app1").is_err());
}

#[test]
fn the_first_faulty_route_counts() {
    let mut bad = route("/a");
    bad.strip_prefix = Some("a".to_string());
    let e = document(vec![route("/ok"), bad, route("x")]).into_proxy_defs().err().unwrap();
    assert_eq!(e.kind, ErrorKind::StripPrefix);
    assert_eq!(
        e.message,
        "routes bootstrap: strip-prefix must start with '/' (app=app1, source=/a)"
    );
}

#[test]
fn values_are_encoded() {
    assert_eq!(url_encode_component("a b&c=d/\u{e4}*-._~"), "a+b%26c%3Dd%2F%C3%A4*-._%7E");
    assert_eq!(url_encode_component(""), "");
    assert_eq!(url_encode_component("AZaz09"), "AZaz09");
}

#[test]
fn bootstrap_urls() {
    assert_eq!(
        bootstrap_url_text("https://c/api", Some("desktop"), "1.0.0"),
        "https://c/api?client=desktop&weavegate=1.0.0"
    );
    assert_eq!(bootstrap_url_text("https://c/api", None, "1"), "https://c/api?weavegate=1");
    assert_eq!(bootstrap_url_text("https://c/api", Some(""), "1"), "https://c/api?weavegate=1");
    assert_eq!(
        bootstrap_url_text("https://c/api?x=1", Some("a b"), "1"),
        "https://c/api?x=1&client=a+b&weavegate=1"
    );
}

#[test]
fn bootstrap_uri_must_parse() {
    let u = build_bootstrap_uri("http://c/r", Some("t"), "2").unwrap();
    assert_eq!(u.text, "http://c/r?client=t&weavegate=2");
    let e = build_bootstrap_uri("http://a b", None, "2").err().unwrap();
    assert_eq!(e.kind, ErrorKind::BootstrapUrl);
    assert_eq!(e.message, "routes bootstrap: invalid URL: http://a b?weavegate=2");
    let e = finish_bootstrap_uri("x", None).err().unwrap();
    assert_eq!(e.message, "routes bootstrap: invalid URL: x");
}

#[test]
fn bootstrap_headers() {
    let map = bootstrap_request_headers(&config(), Some("ignored"), "1.2.3").unwrap();
    assert_eq!(map.len(), 2);
    assert_eq!(map["accept"], "application/json");
    assert_eq!(map["user-agent"], "weavegate/1.2.3");
    let mut c = config();
    c.token_env = Some("WEAVEGATE_ROUTES_TOKEN".to_string());
    let map = bootstrap_request_headers(&c, Some("abc"), "1.2.3").unwrap();
    assert_eq!(map["authorization"], "Bearer abc");
    let map = bootstrap_request_headers(&c, Some(""), "1.2.3").unwrap();
    assert!(!map.contains_key("authorization"));
    let e = bootstrap_request_headers(&c, None, "1.2.3").err().unwrap();
    assert_eq!(e.kind, ErrorKind::BootstrapToken);
    assert_eq!(
        e.message,
        "routes bootstrap: environment variable 'WEAVEGATE_ROUTES_TOKEN' is not set"
    );
    let e = bootstrap_request_headers(&c, Some("a\nb"), "1.2.3").err().unwrap();
    assert_eq!(e.kind, ErrorKind::HeaderValue);
    assert_eq!(e.message, "failed to parse header value");
    assert!(bootstrap_request_headers(&config(), None, "1\n").is_err());
}

#[test]
fn statuses() {
    assert!(check_bootstrap_status(200).is_ok());
    assert!(check_bootstrap_status(299).is_ok());
    let e = check_bootstrap_status(404).err().unwrap();
    assert_eq!(e.kind, ErrorKind::BootstrapStatus);
    assert_eq!(e.message, "routes bootstrap: control plane returned HTTP 404 Not Found");
    assert_eq!(check_bootstrap_status(300).err().unwrap().kind, ErrorKind::BootstrapStatus);
    assert_eq!(check_bootstrap_status(199).err().unwrap().kind, ErrorKind::BootstrapStatus);
    let e = check_bootstrap_status(599).err().unwrap();
    assert_eq!(
        e.message,
        "routes bootstrap: control plane returned HTTP 599 <unknown status code>"
    );
    let e = judge_bootstrap_status(500, Some("Oops")).err().unwrap();
    assert_eq!(e.message, "routes bootstrap: control plane returned HTTP 500 Oops");
    assert_eq!(status_text(204, Some("No Content")), "204 No Content");
}

#[test]
fn timeouts() {
    let mut c = config();
    assert_eq!(fetch_timeout_secs(&c), Some(5));
    c.timeout_secs = Some(1);
    assert_eq!(fetch_timeout_secs(&c), Some(1));
    c.on_failure = Some(RoutesBootstrapOnFailure::FileOnly);
    assert_eq!(fetch_timeout_secs(&c), None);
}

#[test]
fn fetched_routes_are_used() {
    let outcome = FetchOutcome::Document(document(vec![route("/a")]));
    let defs = fetch_routes_defs(&config(), outcome, None, false).unwrap().unwrap();
    assert_eq!(defs[0].source, "/a");
    let outcome = FetchOutcome::Document(RoutesDocument { version: 3, apps: vec![] });
    let cached = Some(document(vec![route("/a")]));
    let e = fetch_routes_defs(&config(), outcome, cached, true).err().unwrap();
    assert_eq!(e.kind, ErrorKind::DocumentVersion);
}

#[test]
fn cached_routes_are_used_when_fetching_fails() {
    let cached = Some(document(vec![route("/cached")]));
    let defs = fetch_routes_defs(&config(), failed(), cached, false).unwrap().unwrap();
    assert_eq!(defs[0].source, "/cached");
    let cached = Some(document(vec![route("/cached")]));
    let mut c = config();
    c.on_failure = Some(RoutesBootstrapOnFailure::Fail);
    let defs = fetch_routes_defs(&c, FetchOutcome::TimedOut, cached, false).unwrap().unwrap();
    assert_eq!(defs[0].source, "/cached");
    let cached = Some(document(vec![route("/cached")]));
    c.cache_path = None;
    assert!(fetch_routes_defs(&c, failed(), cached, false).is_err());
}

#[test]
fn faulty_cached_documents_are_not_used() {
    let faulty = || Some(RoutesDocument { version: 2, apps: vec![] });
    assert!(fetch_routes_defs(&config(), failed(), faulty(), false).unwrap().is_none());
    let cached = Some(document(vec![route("bad")]));
    assert!(fetch_routes_defs(&config(), failed(), cached, true).unwrap().is_none());
    let mut c = config();
    c.on_failure = Some(RoutesBootstrapOnFailure::Fail);
    assert!(fetch_routes_defs(&c, failed(), faulty(), true).unwrap().is_none());
    let e = fetch_routes_defs(&c, failed(), faulty(), false).err().unwrap();
    assert_eq!(e.kind, ErrorKind::BootstrapFailed);
    assert_eq!(
        e.message,
        "routes bootstrap: fetch failed and no cache available: no answer"
    );
}

#[test]
fn without_cache_the_file_is_used() {
    assert!(fetch_routes_defs(&config(), failed(), None, false).unwrap().is_none());
    assert!(fetch_routes_defs(&config(), FetchOutcome::TimedOut, None, true).unwrap().is_none());
}

#[test]
fn giving_up_needs_no_cache_and_no_rules() {
    let mut c = config();
    c.on_failure = Some(RoutesBootstrapOnFailure::Fail);
    let e = fetch_routes_defs(&c, failed(), None, false).err().unwrap();
    assert_eq!(e.kind, ErrorKind::BootstrapFailed);
    assert_eq!(
        e.message,
        "routes bootstrap: fetch failed and no cache available: no answer"
    );
    let e = fetch_routes_defs(&c, FetchOutcome::TimedOut, None, false).err().unwrap();
    assert_eq!(
        e.message,
        "routes bootstrap: fetch failed and no cache available: routes bootstrap request timed out"
    );
    assert!(fetch_routes_defs(&c, failed(), None, true).unwrap().is_none());
    assert!(handle_fetch_failure(&c, "x", None, false).is_err());
}

#[test]
fn file_only_fetches_nothing() {
    let mut c = config();
    c.on_failure = Some(RoutesBootstrapOnFailure::FileOnly);
    let outcome = FetchOutcome::Document(document(vec![route("/a")]));
    assert!(fetch_routes_defs(&c, outcome, None, false).unwrap().is_none());
    let cached = Some(document(vec![route("/cached")]));
    assert!(fetch_routes_defs(&c, failed(), cached, false).unwrap().is_none());
}
