use weavegate::error::ErrorKind;
use weavegate::glob::{capturing_pattern, glob_fits};
use weavegate::proxy_compile::{
    check_proxy_target, compile_proxy_rules, compile_proxy_targets, parse_proxy_target_url,
};
use weavegate::proxy_sort::{sort_proxy_defs_by_specificity, specificity_key};
use weavegate::settings::file::Proxy;
use weavegate::uri::Uri;

fn def(source: &str) -> Proxy {
    Proxy {
        name: None,
        host: None,
        source: source.to_string(),
        target: Some("http://up".to_string()),
        targets: None,
        strip_prefix: None,
    }
}

fn sorted(sources: &[&str]) -> Vec<String> {
    let mut defs: Vec<Proxy> = sources.iter().map(|s| def(s)).collect();
    sort_proxy_defs_by_specificity(&mut defs);
    defs.into_iter().map(|d| d.source).collect()
}

fn error_of(d: Proxy) -> (ErrorKind, String) {
    let e = compile_proxy_rules(vec![d]).err().unwrap();
    (e.kind, e.message)
}

#[test]
fn longer_patterns_come_first() {
    assert_eq!(
        sorted(&["/**", "/app1/api/**", "/app1/api/users/**"]),
        vec!["/app1/api/users/**", "/app1/api/**", "/**"]
    );
}

#[test]
fn fewer_wildcards_come_first() {
    assert_eq!(sorted(&["/ab/**", "/abc/*", "/abcde"]), vec!["/abcde", "/abc/*", "/ab/**"]);
}

#[test]
fn equally_specific_rules_keep_their_order() {
    let mut a = def("/x/*");
    a.name = Some("first".to_string());
    let mut b = def("/y/*");
    b.name = Some("second".to_string());
    let mut c = def("/x/*");
    c.name = Some("third".to_string());
    let mut defs = vec![def("/"), a, b, c];
    sort_proxy_defs_by_specificity(&mut defs);
    let names: Vec<Option<String>> = defs.into_iter().map(|d| d.name).collect();
    assert_eq!(
        names,
        vec![Some("first".to_string()), Some("second".to_string()), Some("third".to_string()), None]
    );
}

#[test]
fn specificity_is_measured_in_bytes() {
    assert_eq!(specificity_key("/a/**"), (5, 2));
    assert_eq!(specificity_key("/\u{e4}*"), (4, 1));
    assert_eq!(specificity_key(""), (0, 0));
}

#[test]
fn compiled_rule() {
    let mut d = def("/api/**");
    d.name = Some("api".to_string());
    d.host = Some("example.com".to_string());
    d.target = Some("  http://10.0.0.1:80/v1 ".to_string());
    d.strip_prefix = Some("/api".to_string());
    let rules = compile_proxy_rules(vec![d]).unwrap();
    assert_eq!(rules.len(), 1);
    let r = &rules[0];
    assert_eq!(r.host.as_deref(), Some("example.com"));
    assert!(r.source.is_match("/api/x/y"));
    assert!(!r.source.is_match("/other"));
    assert_eq!(r.balancer.name(), Some("api"));
    assert_eq!(r.balancer.len(), 1);
    assert_eq!(r.balancer.targets_display(), "http://10.0.0.1:80/v1");
    assert_eq!(r.strip_prefix.as_deref(), Some("/api"));
    assert_eq!(r.uri_templates.len(), 1);
    assert_eq!(r.uri_templates[0].origin, "http://10.0.0.1:80");
    assert_eq!(r.uri_templates[0].base_path, "/v1");
    assert_eq!(r.uri_templates[0].strip_prefix.as_deref(), Some("/api"));
}

#[test]
fn glob_errors() {
    let (kind, message) = error_of(def("/[a"));
    assert_eq!(kind, ErrorKind::GlobPattern);
    assert_eq!(message, "can not compile glob pattern for proxy source: /[a");
}

#[test]
fn strip_prefix_must_be_rooted() {
    let mut d = def("/a");
    d.strip_prefix = Some("a".to_string());
    let (kind, message) = error_of(d);
    assert_eq!(kind, ErrorKind::StripPrefix);
    assert_eq!(message, "proxy strip-prefix must start with '/': a");
    let mut d = def("/a");
    d.strip_prefix = Some(String::new());
    assert_eq!(error_of(d).0, ErrorKind::StripPrefix);
}

#[test]
fn target_and_targets_exclude_each_other() {
    let mut d = def("/a");
    d.targets = Some(vec!["http://b".to_string()]);
    let (kind, message) = error_of(d);
    assert_eq!(kind, ErrorKind::TargetConflict);
    assert_eq!(message, "proxy rule '/a' must use either `target` or `targets`, not both");
    let mut d = def("/a");
    d.targets = Some(vec![]);
    assert!(compile_proxy_targets(&d).is_ok());
}

#[test]
fn some_target_is_needed() {
    let mut d = def("/a");
    d.target = None;
    let (kind, message) = error_of(d);
    assert_eq!(kind, ErrorKind::TargetMissing);
    assert_eq!(message, "proxy rule '/a' must define `target` or `targets`");
    let mut d = def("/a");
    d.target = Some(" \t".to_string());
    d.targets = Some(vec![]);
    assert_eq!(error_of(d).0, ErrorKind::TargetMissing);
    let mut d = def("/a");
    d.target = Some(" ".to_string());
    d.targets = Some(vec!["http://b".to_string()]);
    assert_eq!(compile_proxy_targets(&d).unwrap()[0].authority.as_deref(), Some("b"));
}

#[test]
fn targets_must_be_absolute() {
    let e = parse_proxy_target_url("http://a b", "/s").err().unwrap();
    assert_eq!(e.kind, ErrorKind::TargetUrl);
    assert_eq!(e.message, "invalid proxy target URL (/s): http://a b");
    let e = parse_proxy_target_url("example.com", "/s").err().unwrap();
    assert_eq!(e.kind, ErrorKind::TargetScheme);
    assert_eq!(
        e.message,
        "proxy target must include a scheme (http:// or https://) (/s): example.com"
    );
    let odd = Uri {
        text: "http:".to_string(),
        scheme: Some("http".to_string()),
        authority: None,
        host: None,
        path: "/".to_string(),
        path_and_query: None,
    };
    let e = check_proxy_target("http:", "/s", Some(odd)).err().unwrap();
    assert_eq!(e.kind, ErrorKind::TargetHost);
    assert_eq!(e.message, "proxy target must include a host (/s): http:");
    let u = parse_proxy_target_url("\n https://h:1/p ", "/s").unwrap();
    assert_eq!(u.text, "https://h:1/p");
}

#[test]
fn the_first_bad_target_counts() {
    let mut d = def("/a");
    d.target = None;
    d.targets = Some(vec!["http://ok".to_string(), "x".to_string(), " ".to_string()]);
    let (kind, message) = error_of(d);
    assert_eq!(kind, ErrorKind::TargetScheme);
    assert_eq!(
        message,
        "proxy target must include a scheme (http:// or https://) (/a#1): x"
    );
}

#[test]
fn the_first_bad_rule_counts() {
    let mut bad = def("/a");
    bad.target = Some("x".to_string());
    let e = compile_proxy_rules(vec![def("/ok"), bad, def("[")]).err().unwrap();
    assert_eq!(e.kind, ErrorKind::TargetScheme);
    assert!(compile_proxy_rules(vec![]).unwrap().is_empty());
}

#[test]
fn patterns_have_a_limit() {
    assert!(glob_fits(&"a".repeat(32768)));
    assert!(!glob_fits(&"a".repeat(32769)));
    assert!(glob_fits(&"{".repeat(80)));
    assert!(!glob_fits(&"{".repeat(81)));
    assert!(glob_fits(&"{a,b}".repeat(1000)));
    assert!(!glob_fits(&"{[}]".repeat(81)));
    assert!(!glob_fits(&"{[]}]".repeat(81)));
    assert!(!glob_fits(&"{[!]}]".repeat(81)));
    assert!(!glob_fits(&"{\\}".repeat(81)));
    assert!(!glob_fits(&"\\{".repeat(81)));
    assert!(glob_fits(&"[{]".repeat(1000)));
    assert!(glob_fits(&"[^{]".repeat(1000)));
}

fn compiles(pattern: String) {
    assert!(glob_fits(&pattern));
    assert_eq!(compile_proxy_rules(vec![def(&pattern)]).unwrap().len(), 1);
}

#[test]
fn largest_wide_pattern_compiles() {
    compiles("\u{10348}".repeat(32768));
}

#[test]
fn largest_pattern_of_wildcards_compiles() {
    compiles("*a".repeat(16384));
    compiles("*".repeat(32768));
    compiles("*?".repeat(16384));
}

#[test]
fn largest_deep_pattern_compiles() {
    compiles("/**".repeat(10922));
    compiles("**/a".repeat(8192));
}

#[test]
fn largest_pattern_of_single_wildcards_compiles() {
    compiles("?".repeat(32768));
}

#[test]
fn largest_pattern_of_classes_compiles() {
    compiles("[!a-z]".repeat(5461));
}

#[test]
fn largest_pattern_of_scattered_classes_compiles() {
    compiles("[acegikmoqsuwy]".repeat(2184));
    compiles("[!\u{10348}\u{e4}]".repeat(6553));
    compiles("[ac]".repeat(8192));
}

#[test]
fn largest_class_compiles() {
    compiles(format!("[{}]", "\u{10348}".repeat(32766)));
}

#[test]
fn largest_list_of_alternatives_compiles() {
    compiles(format!("{{{}a}}", "a,".repeat(16382)));
    compiles(format!("{{{}a}}", "*,".repeat(16382)));
}

#[test]
fn deepest_alternations_compile() {
    compiles(format!("{}a{}", "{".repeat(80), "}".repeat(80)));
    compiles(format!("{}[!ab]{}", "{a,b".repeat(80), "}".repeat(80)));
    compiles(format!("x{}[!ab-z]*{}y", "{a*,b?".repeat(80), "c,d}".repeat(80)));
    compiles(format!("{}{}{}", "{".repeat(80), "?".repeat(32000), "}".repeat(80)));
}

#[test]
fn alternations_side_by_side_compile() {
    compiles("{a,b}".repeat(6553));
    compiles("{a,*}".repeat(6553));
    compiles("{*,?}".repeat(6553));
    compiles("{ab,c*,[!c]}".repeat(2730));
    compiles("{a,{b*,c}}".repeat(3276));
}

#[test]
fn groups_capture() {
    assert_eq!(capturing_pattern("(?-u)^(?:/|/.*/)a(?:.*)$"), "^(/|/.*/)a(.*)$");
    assert_eq!(capturing_pattern("(?-u)(?-u)a"), "a");
    assert_eq!(capturing_pattern("a(?-u)"), "a(?-u)");
    assert_eq!(capturing_pattern(".*.*.*"), ".*.*");
}
