use hyper::header::{HeaderMap, HeaderName, HeaderValue};

use weavegate::error::ErrorKind;
use weavegate::proxy::{
    build_upstream_uri, build_upstream_uri_from_template, find_rule, finish_http_response,
    finish_upstream_uri, has_file_rules, init, needs_bootstrap, pre_process, prepare_http_request,
    prepare_upgrade_request, request_host, resolve_rules, upgrade_outcome, upgrade_refusal,
    upstream_request_text, upstream_uri_for_rule, ProxyStep, UpgradeOutcome,
};
use weavegate::proxy_headers::{
    connection_header_has_token, copy_forwardable_headers, is_hop_by_hop_header,
    is_protocol_upgrade, is_streaming_request, set_upstream_host,
};
use weavegate::settings::file::{Proxy, RoutesBootstrap};
use weavegate::settings::{
    upstream_uri_template, Advanced, ProxyBalancer, ProxySettings, UpstreamUriTemplate,
};
use weavegate::uri::Uri;

fn upstream(target: &str) -> Uri {
    Uri::parse(target).unwrap()
}

fn headers(list: &[(&str, &str)]) -> HeaderMap {
    let mut map = HeaderMap::new();
    for (name, value) in list {
        map.append(
            HeaderName::from_bytes(name.as_bytes()).unwrap(),
            HeaderValue::from_str(value).unwrap(),
        );
    }
    map
}

fn rule(source: &str, target: &str, strip_prefix: Option<&str>) -> Proxy {
    Proxy {
        name: None,
        host: None,
        source: source.to_string(),
        target: Some(target.to_string()),
        targets: None,
        strip_prefix: strip_prefix.map(str::to_string),
    }
}

fn with_rules(defs: Vec<Proxy>) -> Option<Advanced> {
    let mut advanced = Some(Advanced { proxy_defs: Some(defs), ..Default::default() });
    resolve_rules(&mut advanced, None).unwrap();
    advanced
}

#[test]
fn build_upstream_uri_with_strip_prefix() {
    let base = upstream("http://127.0.0.1:3000");
    let uri = upstream("http://localhost/api/users/1?q=1");
    let got = build_upstream_uri(&base, Some("/api"), &uri).unwrap();
    assert_eq!(got.text, "http://127.0.0.1:3000/users/1?q=1");
}

#[test]
fn build_upstream_uri_from_template_matches_legacy() {
    let base = upstream("http://backend:8080/v1");
    let uri = upstream("http://localhost/users");
    let template = UpstreamUriTemplate {
        origin: "http://backend:8080".to_string(),
        base_path: "/v1".to_string(),
        strip_prefix: None,
    };
    assert_eq!(
        build_upstream_uri_from_template(&template, &uri).unwrap().text,
        build_upstream_uri(&base, None, &uri).unwrap().text,
    );
}

#[test]
fn proxy_balancer_round_robin() {
    let mut b = ProxyBalancer::new(
        Some("api".to_string()),
        vec![
            upstream("http://127.0.0.1:3001"),
            upstream("http://127.0.0.1:3002"),
            upstream("http://127.0.0.1:3003"),
        ],
    )
    .unwrap();

    assert_eq!(b.len(), 3);
    assert_eq!(b.next_index(), 0);
    assert_eq!(b.next_index(), 1);
    assert_eq!(b.next_index(), 2);
    assert_eq!(b.next_index(), 0);
}

#[test]
fn detects_websocket_upgrade_request() {
    let req = headers(&[
        ("connection", "Upgrade"),
        ("upgrade", "websocket"),
        ("Sec-WebSocket-Key", "dGhlIHNhbXBsZSBub25jZQ=="),
        ("Sec-WebSocket-Version", "13"),
    ]);
    assert!(is_protocol_upgrade(&req));
}

#[test]
fn upgrade_needs_both_headers() {
    assert!(!is_protocol_upgrade(&headers(&[("upgrade", "websocket")])));
    assert!(!is_protocol_upgrade(&headers(&[("connection", "upgrade")])));
    assert!(is_protocol_upgrade(&headers(&[
        ("upgrade", "websocket"),
        ("connection", "keep-alive, \tUPGRADE "),
    ])));
    assert!(!is_protocol_upgrade(&headers(&[
        ("upgrade", "websocket"),
        ("connection", "keep-alive"),
    ])));
}

#[test]
fn connection_tokens_are_whole() {
    let map = headers(&[("connection", "close, x-upgrade")]);
    assert!(connection_header_has_token(&map, "Close"));
    assert!(connection_header_has_token(&map, "x-upgrade"));
    assert!(!connection_header_has_token(&map, "upgrade"));
    assert!(!connection_header_has_token(&headers(&[]), "close"));
}

#[test]
fn only_the_first_connection_header_counts() {
    let map = headers(&[("connection", "close"), ("connection", "upgrade")]);
    assert!(connection_header_has_token(&map, "close"));
    assert!(!connection_header_has_token(&map, "upgrade"));
}

#[test]
fn streaming_is_told_by_accept() {
    assert!(is_streaming_request(&headers(&[("accept", "Text/Event-Stream;q=1")])));
    assert!(!is_streaming_request(&headers(&[("accept", "text/html")])));
    assert!(!is_streaming_request(&headers(&[])));
}

#[test]
fn balancer_needs_an_upstream() {
    let e = ProxyBalancer::new(None, vec![]).err().unwrap();
    assert_eq!(e.kind, ErrorKind::NoUpstream);
    assert_eq!(e.message, "proxy service must have at least one upstream target");
}

#[test]
fn balancer_shows_and_hands_out_its_targets() {
    let mut b = ProxyBalancer::new(
        Some("api".to_string()),
        vec![upstream("http://a:1"), upstream("HTTP://b:2/v1")],
    )
    .unwrap();
    assert_eq!(b.name(), Some("api"));
    assert_eq!(b.targets_display(), "http://a:1/, http://b:2/v1");
    assert_eq!(b.next().authority.as_deref(), Some("a:1"));
    assert_eq!(b.next().authority.as_deref(), Some("b:2"));
    assert_eq!(b.next().authority.as_deref(), Some("a:1"));
}

#[test]
fn every_upstream_is_picked_once_in_a_round() {
    let targets: Vec<Uri> = (0..7).map(|i| upstream(&format!("http://host{i}"))).collect();
    let mut b = ProxyBalancer::new(None, targets).unwrap();
    b.next_index();
    b.next_index();
    let mut seen: Vec<usize> = (0..7).map(|_| b.next_index()).collect();
    assert_eq!(seen, vec![2, 3, 4, 5, 6, 0, 1]);
    seen.sort();
    assert_eq!(seen, vec![0, 1, 2, 3, 4, 5, 6]);
}

#[test]
fn template_needs_scheme_and_authority() {
    let path = upstream("/only/path");
    let e = upstream_uri_template(&path, None).err().unwrap();
    assert_eq!(e.kind, ErrorKind::NoAuthority);
    assert_eq!(e.message, "upstream URI has no authority");
    let authority = upstream("example.com:80");
    let e = upstream_uri_template(&authority, None).err().unwrap();
    assert_eq!(e.kind, ErrorKind::NoScheme);
    assert_eq!(e.message, "upstream URI has no scheme");
}

#[test]
fn template_of_a_base() {
    let t = upstream_uri_template(&upstream("https://user@host:8443/v1/"), Some("/x")).unwrap();
    assert_eq!(t.origin, "https://user@host:8443");
    assert_eq!(t.base_path, "/v1/");
    assert_eq!(t.strip_prefix.as_deref(), Some("/x"));
    let t = upstream_uri_template(&upstream("http://host"), None).unwrap();
    assert_eq!(t.base_path, "/");
}

#[test]
fn upstream_text_joins_base_and_rest() {
    let t = UpstreamUriTemplate {
        origin: "http://h".to_string(),
        base_path: "/v1///".to_string(),
        strip_prefix: Some("/api".to_string()),
    };
    assert_eq!(upstream_request_text(&t, Some("/api/u?q=1")).unwrap(), "http://h/v1/u?q=1");
    assert_eq!(upstream_request_text(&t, Some("/api")).unwrap(), "http://h/v1/");
    assert_eq!(upstream_request_text(&t, Some("/other")).unwrap(), "http://h/v1/other");
    assert_eq!(upstream_request_text(&t, None).unwrap(), "http://h/v1/");
    let e = upstream_request_text(&t, Some("/apiary")).err().unwrap();
    assert_eq!(e.kind, ErrorKind::StrippedPath);
    assert_eq!(e.message, "invalid path after strip-prefix: ary");
}

#[test]
fn upstream_text_without_base_path() {
    let mut t = UpstreamUriTemplate {
        origin: "http://h".to_string(),
        base_path: String::new(),
        strip_prefix: None,
    };
    assert_eq!(upstream_request_text(&t, Some("/a")).unwrap(), "http://h/a");
    t.base_path = "/".to_string();
    assert_eq!(upstream_request_text(&t, Some("/a")).unwrap(), "http://h/a");
    t.strip_prefix = Some("/a".to_string());
    let e = upstream_request_text(&t, Some("/a?q=1")).err().unwrap();
    assert_eq!(e.message, "invalid path after strip-prefix: ?q=1");
}

#[test]
fn template_build_reaches_the_upstream() {
    let base = upstream("https://user-svc.corp.internal/base/");
    let t = upstream_uri_template(&base, Some("/app1/api/users")).unwrap();
    let uri = t.build(&upstream("http://127.0.0.1:8787/app1/api/users/me?x=%20")).unwrap();
    assert_eq!(uri.scheme.as_deref(), Some("https"));
    assert_eq!(uri.authority, base.authority);
    assert_eq!(uri.path_and_query.as_deref(), Some("/base/me?x=%20"));
}

#[test]
fn upstream_uri_must_parse() {
    let e = finish_upstream_uri("http://h h", None).err().unwrap();
    assert_eq!(e.kind, ErrorKind::UpstreamUri);
    assert_eq!(e.message, "invalid upstream URI: http://h h");
    let t = UpstreamUriTemplate {
        origin: "ht tp://h".to_string(),
        base_path: String::new(),
        strip_prefix: None,
    };
    let e = t.build(&upstream("/a")).err().unwrap();
    assert_eq!(e.message, "invalid upstream URI: ht tp://h/a");
}

#[test]
fn uri_components() {
    let u = upstream("http://user@Example.com:8080/a/b?q=1#frag");
    assert_eq!(u.scheme.as_deref(), Some("http"));
    assert_eq!(u.authority.as_deref(), Some("user@Example.com:8080"));
    assert_eq!(u.host.as_deref(), Some("Example.com"));
    assert_eq!(u.path, "/a/b");
    assert_eq!(u.path_and_query.as_deref(), Some("/a/b?q=1"));
    assert_eq!(u.text, "http://user@Example.com:8080/a/b?q=1");
    let u = upstream("example.com");
    assert_eq!(u.scheme, None);
    assert_eq!(u.authority.as_deref(), Some("example.com"));
    assert_eq!(u.path, "");
    assert_eq!(u.path_and_query, None);
    let u = upstream("http://h");
    assert_eq!(u.path, "/");
    assert_eq!(u.path_and_query.as_deref(), Some("/"));
    let u = upstream("http://h?q");
    assert_eq!(u.path, "/");
    assert_eq!(u.path_and_query.as_deref(), Some("?q"));
    assert_eq!(u.text, "http://h/?q");
    assert!(Uri::parse("").is_none());
    assert!(Uri::parse("http://").is_none());
    assert!(Uri::parse("a b").is_none());
    let u = upstream("*");
    assert_eq!(u.scheme, None);
}

#[test]
fn host_comes_from_uri_or_header() {
    let map = headers(&[("host", "header.example:8080")]);
    let full = upstream("http://uri.example:9/x");
    assert_eq!(request_host(&full, &map).as_deref(), Some("uri.example"));
    let path = upstream("/x");
    assert_eq!(request_host(&path, &map).as_deref(), Some("header.example"));
    let odd = headers(&[("host", "header.example:99999")]);
    assert_eq!(request_host(&path, &odd).as_deref(), Some("header.example:99999"));
    let named = headers(&[("host", "header.example:http")]);
    assert_eq!(request_host(&path, &named).as_deref(), Some("header.example:http"));
    let v6 = headers(&[("host", "[::1]:80")]);
    assert_eq!(request_host(&path, &v6).as_deref(), Some("[::1]"));
    let plus = headers(&[("host", "h:+80")]);
    assert_eq!(request_host(&path, &plus).as_deref(), Some("h"));
    assert_eq!(request_host(&path, &headers(&[])), None);
}

#[test]
fn host_header_must_be_visible() {
    let mut map = HeaderMap::new();
    map.insert("host", HeaderValue::from_bytes(b"h\xc3\xa4st").unwrap());
    assert_eq!(request_host(&upstream("/x"), &map), None);
}

#[test]
fn rules_match_by_host_and_path() {
    let mut for_host = rule("/api/**", "http://a", None);
    for_host.host = Some("a.example".to_string());
    let advanced = with_rules(vec![for_host, rule("/api/*", "http://b", None)]);
    let map = headers(&[]);
    let found = |text: &str| find_rule(&advanced, &upstream(text), &map);
    assert_eq!(found("http://a.example/api/x"), Some(0));
    assert_eq!(found("http://b.example/api/x"), Some(1));
    assert_eq!(found("http://b.example/other"), None);
    assert_eq!(find_rule(&advanced, &upstream("/api/x"), &map), None);
    assert_eq!(find_rule(&None, &upstream("http://a.example/api/x"), &map), None);
}

#[test]
fn steps_of_a_request() {
    let advanced = with_rules(vec![rule("/ws/**", "http://a", None)]);
    let plain = headers(&[]);
    let upgrade = headers(&[("connection", "upgrade"), ("upgrade", "websocket")]);
    let uri = upstream("http://localhost/ws/socket");
    assert!(matches!(pre_process(&advanced, true, &uri, &plain), ProxyStep::Http(0)));
    assert!(matches!(pre_process(&advanced, true, &uri, &upgrade), ProxyStep::Upgrade(0)));
    assert!(matches!(pre_process(&advanced, false, &uri, &plain), ProxyStep::Pass));
    let other = upstream("http://localhost/index.htm");
    assert!(matches!(pre_process(&advanced, true, &other, &plain), ProxyStep::Pass));
}

#[test]
fn forwarded_request() {
    let mut advanced = with_rules(vec![rule("/api/**", "http://10.0.0.1:3000", Some("/api"))]);
    let rules = advanced.as_mut().unwrap().proxies.as_mut().unwrap();
    let incoming = headers(&[
        ("host", "localhost"),
        ("connection", "keep-alive, x"),
        ("keep-alive", "timeout=5"),
        ("te", "trailers"),
        ("trailer", "x"),
        ("trailers", "x"),
        ("transfer-encoding", "chunked"),
        ("upgrade", "h2c"),
        ("proxy-authorization", "secret"),
        ("proxy-authenticate", "Basic"),
        ("proxy-connection", "close"),
        ("x-custom", "one"),
        ("x-custom", "two"),
        ("accept", "text/event-stream"),
    ]);
    let uri = upstream("https://localhost/api/users/42");
    let q = prepare_http_request(&mut rules[0], &uri, &incoming, Some("192.0.2.7")).unwrap();
    assert_eq!(q.uri.text, "http://10.0.0.1:3000/users/42");
    assert!(q.streaming);
    let mut names: Vec<String> = q.headers.keys().map(|n| n.to_string()).collect();
    names.sort();
    assert_eq!(
        names,
        vec!["accept", "host", "x-custom", "x-forwarded-for", "x-forwarded-host", "x-forwarded-proto"]
    );
    assert_eq!(q.headers["host"], "10.0.0.1:3000");
    assert_eq!(q.headers["x-forwarded-for"], "192.0.2.7");
    assert_eq!(q.headers["x-forwarded-proto"], "https");
    assert_eq!(q.headers["x-forwarded-host"], "localhost");
    let custom: Vec<_> = q.headers.get_all("x-custom").iter().collect();
    assert_eq!(custom, vec!["two"]);
}

#[test]
fn forwarded_request_without_peer() {
    let mut advanced = with_rules(vec![rule("/**", "http://up", None)]);
    let rules = advanced.as_mut().unwrap().proxies.as_mut().unwrap();
    let incoming = headers(&[
        ("x-forwarded-for", "198.51.100.1"),
        ("x-forwarded-for", "198.51.100.2"),
        ("x-forwarded-proto", "gopher"),
    ]);
    let uri = upstream("/a");
    let q = prepare_http_request(&mut rules[0], &uri, &incoming, None).unwrap();
    assert_eq!(q.headers["x-forwarded-for"], "198.51.100.1");
    assert_eq!(q.headers.get_all("x-forwarded-for").iter().count(), 1);
    assert_eq!(q.headers["x-forwarded-proto"], "gopher");
    assert!(!q.headers.contains_key("x-forwarded-host"));
    assert!(!q.streaming);
    let q = prepare_http_request(&mut rules[0], &uri, &headers(&[]), None).unwrap();
    assert_eq!(q.headers["x-forwarded-proto"], "http");
    assert!(!q.headers.contains_key("x-forwarded-for"));
}

#[test]
fn peer_that_is_no_header_value_is_left_out() {
    let mut advanced = with_rules(vec![rule("/**", "http://up", None)]);
    let rules = advanced.as_mut().unwrap().proxies.as_mut().unwrap();
    let q =
        prepare_http_request(&mut rules[0], &upstream("/a"), &headers(&[]), Some("a\nb")).unwrap();
    assert!(!q.headers.contains_key("x-forwarded-for"));
}

#[test]
fn upgrade_request_keeps_connection_headers() {
    let mut advanced = with_rules(vec![rule("/ws/**", "http://up:9/base", Some("/ws"))]);
    let rules = advanced.as_mut().unwrap().proxies.as_mut().unwrap();
    let incoming = headers(&[
        ("host", "localhost"),
        ("connection", "upgrade"),
        ("upgrade", "websocket"),
        ("sec-websocket-key", "dGhlIHNhbXBsZSBub25jZQ=="),
    ]);
    let uri = upstream("http://localhost/ws/socket");
    let q = prepare_upgrade_request(&mut rules[0], &uri, &incoming, Some("::1")).unwrap();
    assert_eq!(q.uri.text, "http://up:9/base/socket");
    assert_eq!(q.headers["host"], "up:9");
    assert_eq!(q.headers["connection"], "upgrade");
    assert_eq!(q.headers["upgrade"], "websocket");
    assert_eq!(q.headers["sec-websocket-key"], "dGhlIHNhbXBsZSBub25jZQ==");
    assert_eq!(q.headers["x-forwarded-host"], "localhost");
    assert_eq!(q.headers["x-forwarded-for"], "::1");
}

#[test]
fn sensitive_headers_stay_sensitive() {
    let mut advanced = with_rules(vec![rule("/**", "http://up", None)]);
    let rules = advanced.as_mut().unwrap().proxies.as_mut().unwrap();
    let mut secret = HeaderValue::from_static("secret");
    secret.set_sensitive(true);
    let mut incoming = headers(&[("accept", "text/html"), ("upgrade", "x")]);
    for name in ["authorization", "x-forwarded-for", "x-forwarded-proto", "host"] {
        incoming.insert(HeaderName::from_static(name), secret.clone());
    }
    let uri = upstream("/a");
    for q in [
        prepare_http_request(&mut rules[0], &uri, &incoming, None).unwrap(),
        prepare_upgrade_request(&mut rules[0], &uri, &incoming, None).unwrap(),
    ] {
        for name in ["authorization", "x-forwarded-for", "x-forwarded-proto", "x-forwarded-host"] {
            assert_eq!(q.headers[name], "secret");
            assert!(q.headers[name].is_sensitive());
        }
        assert!(!q.headers["accept"].is_sensitive());
        assert!(!q.headers["host"].is_sensitive());
    }
    let q = prepare_http_request(&mut rules[0], &uri, &incoming, Some("192.0.2.1")).unwrap();
    assert!(!q.headers["x-forwarded-for"].is_sensitive());
}

#[test]
fn odd_names_and_values_are_passed_on_as_they_are() {
    let mut src = HeaderMap::new();
    src.entry("x-a-name-of-more-than-sixty-four-characters-that-holds a space-abc")
        .or_insert(HeaderValue::from_static("kept"));
    let name = src.keys().next().unwrap().clone();
    assert_eq!(name.as_str().len(), 66);
    assert!(name.as_str().contains('\0'));
    let value = HeaderValue::from_name(name.clone());
    src.insert("x-odd", value.clone());
    src.insert("x-forwarded-for", value.clone());
    src.insert("x-forwarded-proto", value.clone());
    src.insert("accept", value.clone());

    let mut dst = HeaderMap::new();
    copy_forwardable_headers(&src, &mut dst).unwrap();
    assert_eq!(dst, src);

    let mut advanced = with_rules(vec![rule("/**", "http://up", None)]);
    let rules = advanced.as_mut().unwrap().proxies.as_mut().unwrap();
    let uri = Uri::parse("/a").unwrap();
    for q in [
        prepare_http_request(&mut rules[0], &uri, &src, None).unwrap(),
        prepare_upgrade_request(&mut rules[0], &uri, &src, None).unwrap(),
    ] {
        assert_eq!(q.headers[&name], "kept");
        assert_eq!(q.headers["x-odd"], value);
        assert_eq!(q.headers["x-forwarded-for"], value);
        assert_eq!(q.headers["x-forwarded-proto"], value);
        assert_eq!(q.headers["host"], "up");
    }
    assert!(!is_streaming_request(&src));
}

#[test]
fn templates_stand_beside_upstreams() {
    let mut def = rule("/api/**", "", Some("/api"));
    def.target = None;
    def.targets = Some(vec!["http://a:1/v1".to_string(), "https://b".to_string()]);
    let advanced = with_rules(vec![def]);
    let r = &advanced.as_ref().unwrap().proxies.as_ref().unwrap()[0];
    assert_eq!(r.balancer.len(), 2);
    assert_eq!(r.uri_templates.len(), 2);
    assert_eq!(r.uri_templates[0].origin, "http://a:1");
    assert_eq!(r.uri_templates[0].base_path, "/v1");
    assert_eq!(r.uri_templates[1].origin, "https://b");
    assert_eq!(r.uri_templates[1].base_path, "/");
    for t in &r.uri_templates {
        assert_eq!(t.strip_prefix.as_deref(), Some("/api"));
    }
}

#[test]
fn rules_of_the_file_are_seen() {
    assert!(!has_file_rules(&None));
    assert!(!has_file_rules(&Some(Advanced::default())));
    let empty = Some(Advanced { proxy_defs: Some(vec![]), ..Default::default() });
    assert!(!has_file_rules(&empty));
    assert!(has_file_rules(&with_rules(vec![rule("/**", "http://a", None)])));
}

#[test]
fn forwarding_goes_round() {
    let mut def = rule("/api/**", "", None);
    def.target = None;
    def.targets = Some(vec!["http://a:1".to_string(), "http://b:2".to_string()]);
    let mut advanced = with_rules(vec![def]);
    let rules = advanced.as_mut().unwrap().proxies.as_mut().unwrap();
    let uri = upstream("http://localhost/api/ping");
    let hosts: Vec<String> = (0..4)
        .map(|_| upstream_uri_for_rule(&mut rules[0], &uri).unwrap().authority.unwrap())
        .collect();
    assert_eq!(hosts, vec!["a:1", "b:2", "a:1", "b:2"]);
}

#[test]
fn rule_without_template_is_an_error() {
    let mut advanced = with_rules(vec![rule("/**", "http://a", None)]);
    let rules = advanced.as_mut().unwrap().proxies.as_mut().unwrap();
    rules[0].uri_templates.clear();
    let e = upstream_uri_for_rule(&mut rules[0], &upstream("/x")).err().unwrap();
    assert_eq!(e.kind, ErrorKind::TemplateIndex);
    assert_eq!(e.message, "proxy URI template index out of range");
}

#[test]
fn host_header_needs_an_authority() {
    let mut map = HeaderMap::new();
    let e = set_upstream_host(&mut map, &upstream("/x")).err().unwrap();
    assert_eq!(e.kind, ErrorKind::NoAuthority);
    let mut odd = upstream("http://h/x");
    odd.authority = Some("h\n".to_string());
    let e = set_upstream_host(&mut map, &odd).err().unwrap();
    assert_eq!(e.kind, ErrorKind::HeaderValue);
    assert_eq!(e.message, "invalid upstream Host header value: h\n");
    assert!(map.is_empty());
    map.append("host", HeaderValue::from_static("old"));
    map.append("host", HeaderValue::from_static("older"));
    set_upstream_host(&mut map, &upstream("http://new:1/x")).unwrap();
    assert_eq!(map.get_all("host").iter().collect::<Vec<_>>(), vec!["new:1"]);
}

#[test]
fn too_many_headers_are_an_error() {
    let mut dst = HeaderMap::new();
    for i in 0..24000 {
        if dst.try_insert(HeaderName::from_bytes(format!("a{i}").as_bytes()).unwrap(),
            HeaderValue::from_static("x")).is_err() {
            break;
        }
    }
    let mut src = HeaderMap::new();
    for i in 0..24000 {
        if src.try_insert(HeaderName::from_bytes(format!("b{i}").as_bytes()).unwrap(),
            HeaderValue::from_static("x")).is_err() {
            break;
        }
    }
    let e = copy_forwardable_headers(&src, &mut dst).err().unwrap();
    assert_eq!(e.kind, ErrorKind::HeaderOverflow);
    assert_eq!(e.message, "size overflows MAX_SIZE");
}

#[test]
fn as_many_headers_as_there_is_room_for() {
    let mut dst = HeaderMap::new();
    let mut src = HeaderMap::new();
    for i in 0..6553 {
        src.insert(
            HeaderName::from_bytes(format!("x-{i}").as_bytes()).unwrap(),
            HeaderValue::from_static("x"),
        );
    }
    copy_forwardable_headers(&src, &mut dst).unwrap();
    assert_eq!(dst, src);
    set_upstream_host(&mut dst, &upstream("http://h/")).unwrap();
    assert_eq!(dst.len(), 6554);
}

#[test]
fn hop_by_hop_names() {
    for name in [
        "connection", "keep-alive", "proxy-authenticate", "proxy-authorization", "te", "trailers",
        "transfer-encoding", "upgrade", "proxy-connection",
    ] {
        assert!(is_hop_by_hop_header(name));
    }
    for name in ["host", "trailer", "accept", "x-te", ""] {
        assert!(!is_hop_by_hop_header(name));
    }
}

#[test]
fn response_headers() {
    let all = [
        ("connection", "close"), ("keep-alive", "x"), ("proxy-authenticate", "x"),
        ("proxy-authorization", "x"), ("te", "x"), ("trailer", "x"), ("trailers", "x"),
        ("transfer-encoding", "chunked"), ("upgrade", "x"), ("proxy-connection", "x"),
        ("content-type", "text/plain"), ("set-cookie", "a"), ("set-cookie", "b"),
    ];
    let mut map = headers(&all);
    finish_http_response(&mut map, false);
    let mut names: Vec<String> = map.keys().map(|n| n.to_string()).collect();
    names.sort();
    assert_eq!(names, vec!["content-type", "set-cookie", "trailers"]);
    assert_eq!(map.get_all("set-cookie").iter().count(), 2);
    let mut map = headers(&all);
    finish_http_response(&mut map, true);
    let mut names: Vec<String> = map.keys().map(|n| n.to_string()).collect();
    names.sort();
    assert_eq!(
        names,
        vec!["connection", "content-type", "keep-alive", "set-cookie", "te", "trailer", "trailers",
            "transfer-encoding", "upgrade"]
    );
}

#[test]
fn upgrade_outcomes() {
    let mut map = headers(&[("connection", "upgrade"), ("upgrade", "websocket")]);
    match upgrade_outcome(101, &mut map) {
        UpgradeOutcome::Tunnel(kind) => assert_eq!(kind, "websocket"),
        UpgradeOutcome::PassThrough => panic!(),
    }
    assert_eq!(map["connection"], "upgrade");
    match upgrade_outcome(101, &mut headers(&[])) {
        UpgradeOutcome::Tunnel(kind) => assert_eq!(kind, "unknown"),
        UpgradeOutcome::PassThrough => panic!(),
    }
    assert!(matches!(upgrade_outcome(200, &mut map), UpgradeOutcome::PassThrough));
    assert_eq!(upgrade_refusal(true, false), Some(503));
    assert_eq!(upgrade_refusal(true, true), None);
    assert_eq!(upgrade_refusal(false, false), None);
}

#[test]
fn proxy_runs_where_there_are_rules() {
    assert!(init(&None).is_none());
    assert!(init(&Some(Advanced::default())).is_none());
    assert!(init(&Some(Advanced { proxies: Some(vec![]), ..Default::default() })).is_none());
    let mut advanced = with_rules(vec![rule("/**", "http://a", None)]);
    advanced.as_mut().unwrap().proxy_settings = ProxySettings {
        proxy_first: true,
        max_upgrade_tunnels: Some(3),
        ..Default::default()
    };
    let settings = init(&advanced).unwrap();
    assert!(settings.proxy_first);
    assert_eq!(settings.max_upgrade_tunnels, Some(3));
    assert_eq!(settings.pool_max_idle_per_host, 32);
    assert_eq!(settings.pool_idle_timeout_secs, 90);
    assert!(settings.tls.use_webpki_roots);
    assert!(settings.tls.ca_files.is_empty());
}

fn bootstrap() -> RoutesBootstrap {
    RoutesBootstrap {
        url: "http://control/routes".to_string(),
        token_env: None,
        timeout_secs: None,
        cache_path: None,
        on_failure: None,
        client_id: None,
    }
}

#[test]
fn specific_routes_come_before_the_gateway() {
    let mut advanced = Some(Advanced {
        proxy_defs: Some(vec![rule("/debug/**", "http://127.0.0.1:9999", None)]),
        routes_bootstrap: Some(bootstrap()),
        ..Default::default()
    });
    assert!(needs_bootstrap(&advanced));
    let remote = vec![
        rule("/app1/api/**", "http://gateway", Some("/app1/api")),
        rule("/app1/api/users/**", "http://users", Some("/app1/api/users")),
    ];
    resolve_rules(&mut advanced, Some(remote)).unwrap();
    assert!(!needs_bootstrap(&advanced));
    let map = headers(&[("host", "127.0.0.1:8787")]);
    let ask = |advanced: &mut Option<Advanced>, path: &str| {
        let uri = upstream(&format!("http://127.0.0.1:8787{path}"));
        let i = find_rule(advanced, &uri, &map).unwrap();
        let rules = advanced.as_mut().unwrap().proxies.as_mut().unwrap();
        upstream_uri_for_rule(&mut rules[i], &uri).unwrap().text
    };
    assert_eq!(ask(&mut advanced, "/app1/api/users/me"), "http://users/me");
    assert_eq!(ask(&mut advanced, "/app1/api/reports/1"), "http://gateway/reports/1");
    assert_eq!(ask(&mut advanced, "/debug/x"), "http://127.0.0.1:9999/debug/x");
    assert!(find_rule(&advanced, &upstream("http://h/app1/x"), &map).is_none());
}

#[test]
fn rules_are_resolved_once() {
    let mut none: Option<Advanced> = None;
    resolve_rules(&mut none, Some(vec![rule("/**", "http://a", None)])).unwrap();
    assert!(none.is_none());
    let mut empty = Some(Advanced::default());
    resolve_rules(&mut empty, None).unwrap();
    assert!(empty.as_ref().unwrap().proxies.is_none());
    resolve_rules(&mut empty, Some(vec![rule("/**", "http://a", None)])).unwrap();
    assert!(empty.as_ref().unwrap().proxies.is_none());
    let mut advanced = with_rules(vec![rule("/**", "http://a", None)]);
    advanced.as_mut().unwrap().proxy_defs = Some(vec![rule("[", "", None)]);
    resolve_rules(&mut advanced, None).unwrap();
    assert_eq!(advanced.unwrap().proxies.unwrap().len(), 1);
}

#[test]
fn faulty_rules_are_reported() {
    let mut advanced =
        Some(Advanced { proxy_defs: Some(vec![rule("/**", "x", None)]), ..Default::default() });
    let e = resolve_rules(&mut advanced, None).err().unwrap();
    assert_eq!(e.kind, ErrorKind::TargetScheme);
    assert!(advanced.unwrap().proxies.is_none());
}
