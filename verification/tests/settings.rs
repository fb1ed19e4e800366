use hyper::header::{HeaderMap, HeaderValue};

use weavegate::error::ErrorKind;
use weavegate::settings::advanced::{
    compile_advanced, compile_headers, compile_redirects, compile_rewrites, compile_virtual_hosts,
    Surroundings,
};
use weavegate::settings::cli::General;
use weavegate::settings::file::{
    Advanced as FileAdvanced, General as FileGeneral, Headers as FileHeaders, LogLevel, ProxyTls,
    Redirects as FileRedirects, RedirectsKind, Rewrites as FileRewrites, Settings as FileSettings,
    VirtualHosts as FileVirtualHosts,
};
use weavegate::settings::merge::merge_general;
use weavegate::settings::{
    choose_config_file, default_config_files, Commands, LoadedFile, ProxySettings, Settings,
};

fn s(text: &str) -> String {
    text.to_string()
}

fn cli() -> General {
    General {
        version: false,
        host: s("127.0.0.1"),
        port: 8787,
        root: s("./public"),
        log_level: s("error"),
        log_with_ansi: false,
        config_file: s("./weavegate.toml"),
        cache_control_headers: true,
        compression: true,
        compression_level: s("default"),
        compression_static: false,
        page404: s("./404.html"),
        page50x: s("./50x.html"),
        http2: false,
        http2_tls_cert: None,
        http2_tls_key: Some(s("cli.key")),
        https_redirect: false,
        https_redirect_host: s("localhost"),
        https_redirect_from_port: 80,
        https_redirect_from_hosts: s("localhost"),
        security_headers: false,
        cors_allow_origins: s(""),
        cors_allow_headers: s("origin"),
        cors_expose_headers: s("content-type"),
        directory_listing: false,
        directory_listing_order: 6,
        directory_listing_format: s("html"),
        directory_listing_download: vec![],
        basic_auth: s(""),
        fd: None,
        threads_multiplier: 1,
        max_blocking_threads: 512,
        grace_period: 0,
        page_fallback: s(""),
        log_remote_address: false,
        log_x_real_ip: false,
        log_forwarded_for: false,
        trusted_proxies: vec![],
        redirect_trailing_slash: true,
        ignore_hidden_files: false,
        disable_symlinks: false,
        accept_markdown: false,
        text_charset: s("utf-8"),
        index_files: s("index.html"),
        health: false,
        metrics: false,
        maintenance_mode: false,
        maintenance_mode_status: 503,
        maintenance_mode_file: s(""),
        windows_service: false,
        commands: None,
    }
}

fn no_general() -> FileGeneral {
    FileGeneral {
        host: None,
        port: None,
        root: None,
        log_level: None,
        log_with_ansi: None,
        cache_control_headers: None,
        compression: None,
        compression_level: None,
        compression_static: None,
        page404: None,
        page50x: None,
        http2: None,
        http2_tls_cert: None,
        http2_tls_key: None,
        https_redirect: None,
        https_redirect_host: None,
        https_redirect_from_port: None,
        https_redirect_from_hosts: None,
        security_headers: None,
        cors_allow_origins: None,
        cors_allow_headers: None,
        cors_expose_headers: None,
        directory_listing: None,
        directory_listing_order: None,
        directory_listing_format: None,
        directory_listing_download: None,
        basic_auth: None,
        fd: None,
        threads_multiplier: None,
        max_blocking_threads: None,
        grace_period: None,
        page_fallback: None,
        log_remote_address: None,
        log_x_real_ip: None,
        log_forwarded_for: None,
        trusted_proxies: None,
        redirect_trailing_slash: None,
        ignore_hidden_files: None,
        disable_symlinks: None,
        accept_markdown: None,
        text_charset: None,
        index_files: None,
        health: None,
        metrics: None,
        maintenance_mode: None,
        maintenance_mode_status: None,
        maintenance_mode_file: None,
        windows_service: None,
    }
}

fn full_general() -> FileGeneral {
    FileGeneral {
        host: Some(s("::")),
        port: Some(80),
        root: Some(s("/srv")),
        log_level: Some(LogLevel::Trace),
        log_with_ansi: Some(true),
        cache_control_headers: Some(false),
        compression: Some(false),
        compression_level: Some(s("best")),
        compression_static: Some(true),
        page404: Some(s("a")),
        page50x: Some(s("b")),
        http2: Some(true),
        http2_tls_cert: Some(s("c")),
        http2_tls_key: Some(s("d")),
        https_redirect: Some(true),
        https_redirect_host: Some(s("e")),
        https_redirect_from_port: Some(8080),
        https_redirect_from_hosts: Some(s("f")),
        security_headers: Some(false),
        cors_allow_origins: Some(s("g")),
        cors_allow_headers: Some(s("h")),
        cors_expose_headers: Some(s("i")),
        directory_listing: Some(true),
        directory_listing_order: Some(1),
        directory_listing_format: Some(s("json")),
        directory_listing_download: Some(vec![s("targz")]),
        basic_auth: Some(s("j")),
        fd: Some(3),
        threads_multiplier: Some(2),
        max_blocking_threads: Some(4),
        grace_period: Some(5),
        page_fallback: Some(s("k")),
        log_remote_address: Some(true),
        log_x_real_ip: Some(true),
        log_forwarded_for: Some(true),
        trusted_proxies: Some(vec![s("10.0.0.1")]),
        redirect_trailing_slash: Some(false),
        ignore_hidden_files: Some(true),
        disable_symlinks: Some(true),
        accept_markdown: Some(true),
        text_charset: Some(s("ascii")),
        index_files: Some(s("l")),
        health: Some(true),
        metrics: Some(true),
        maintenance_mode: Some(true),
        maintenance_mode_status: Some(500),
        maintenance_mode_file: Some(s("m")),
        windows_service: Some(true),
    }
}

fn no_advanced() -> FileAdvanced {
    FileAdvanced {
        headers: None,
        rewrites: None,
        redirects: None,
        virtual_hosts: None,
        proxies: None,
        routes_bootstrap: None,
        proxy_tls: None,
        proxy_pool_max_idle_per_host: None,
        proxy_pool_idle_timeout_secs: None,
        proxy_first: None,
        max_upgrade_tunnels: None,
    }
}

fn around() -> Surroundings {
    Surroundings { home: None, regular_files: vec![], virtual_host_roots: vec![] }
}

fn loaded(general: Option<FileGeneral>, advanced: Option<FileAdvanced>) -> Option<LoadedFile> {
    Some(LoadedFile { settings: FileSettings { general, advanced }, path: s("/etc/w.toml") })
}

fn rewrite(source: &str) -> FileRewrites {
    FileRewrites { source: s(source), destination: s("/d"), redirect: None }
}

fn redirect(source: &str, kind: RedirectsKind) -> FileRedirects {
    FileRedirects { host: None, source: s(source), destination: s("/d"), kind }
}

#[test]
fn without_file_the_command_line_counts() {
    let settings = Settings::parse_from(cli(), None, &around()).unwrap();
    assert_eq!(format!("{:?}", settings.general), format!("{:?}", cli()));
    assert!(settings.advanced.is_none());
}

#[test]
fn empty_file_changes_the_path_only() {
    let settings = Settings::parse_from(cli(), loaded(None, None), &around()).unwrap();
    let expected = General { config_file: s("/etc/w.toml"), ..cli() };
    assert_eq!(format!("{:?}", settings.general), format!("{expected:?}"));
    assert!(settings.advanced.is_none());
    let settings =
        Settings::parse_from(cli(), loaded(Some(no_general()), None), &around()).unwrap();
    assert_eq!(format!("{:?}", settings.general), format!("{expected:?}"));
}

#[test]
fn file_options_come_first() {
    let g = merge_general(cli(), full_general(), s("p")).unwrap();
    let expected = General {
        version: false,
        host: s("::"),
        port: 80,
        root: s("/srv"),
        log_level: s("trace"),
        log_with_ansi: true,
        config_file: s("p"),
        cache_control_headers: false,
        compression: false,
        compression_level: s("best"),
        compression_static: true,
        page404: s("a"),
        page50x: s("b"),
        http2: true,
        http2_tls_cert: Some(s("c")),
        http2_tls_key: Some(s("d")),
        https_redirect: true,
        https_redirect_host: s("e"),
        https_redirect_from_port: 8080,
        https_redirect_from_hosts: s("f"),
        security_headers: false,
        cors_allow_origins: s("g"),
        cors_allow_headers: s("h"),
        cors_expose_headers: s("i"),
        directory_listing: true,
        directory_listing_order: 1,
        directory_listing_format: s("json"),
        directory_listing_download: vec![s("targz")],
        basic_auth: s("j"),
        fd: Some(3),
        threads_multiplier: 2,
        max_blocking_threads: 4,
        grace_period: 5,
        page_fallback: s("k"),
        log_remote_address: true,
        log_x_real_ip: true,
        log_forwarded_for: true,
        trusted_proxies: vec![s("10.0.0.1")],
        redirect_trailing_slash: false,
        ignore_hidden_files: true,
        disable_symlinks: true,
        accept_markdown: true,
        text_charset: s("ascii"),
        index_files: s("l"),
        health: true,
        metrics: true,
        maintenance_mode: true,
        maintenance_mode_status: 500,
        maintenance_mode_file: s("m"),
        windows_service: true,
        commands: None,
    };
    assert_eq!(format!("{g:?}"), format!("{expected:?}"));
}

#[test]
fn http2_brings_security_headers() {
    let g = FileGeneral { http2: Some(true), ..no_general() };
    assert!(merge_general(cli(), g, s("p")).unwrap().security_headers);
    let g = FileGeneral { http2: Some(false), ..no_general() };
    assert!(!merge_general(cli(), g, s("p")).unwrap().security_headers);
    let with_http2 = General { http2: true, ..cli() };
    assert!(merge_general(with_http2, no_general(), s("p")).unwrap().security_headers);
    let with_headers = General { security_headers: true, ..cli() };
    assert!(merge_general(with_headers, no_general(), s("p")).unwrap().security_headers);
    let with_http2 = General { http2: true, ..cli() };
    let settings = Settings::parse_from(with_http2, loaded(None, None), &around()).unwrap();
    assert!(!settings.general.security_headers);
}

#[test]
fn log_levels() {
    for (level, name, lower) in [
        (LogLevel::Error, "ERROR", "error"),
        (LogLevel::Warn, "WARN", "warn"),
        (LogLevel::Info, "INFO", "info"),
        (LogLevel::Debug, "DEBUG", "debug"),
        (LogLevel::Trace, "TRACE", "trace"),
    ] {
        assert_eq!(level.name(), name);
        let g = FileGeneral { log_level: Some(level), ..no_general() };
        assert_eq!(merge_general(cli(), g, s("p")).unwrap().log_level, lower);
    }
}

#[test]
fn maintenance_status_must_be_a_status() {
    for (code, ok) in [(99, false), (100, true), (999, true), (1000, false), (0, false)] {
        let g = FileGeneral { maintenance_mode_status: Some(code), ..no_general() };
        match merge_general(cli(), g, s("p")) {
            Ok(general) => {
                assert!(ok);
                assert_eq!(general.maintenance_mode_status, code);
            }
            Err(e) => {
                assert!(!ok);
                assert_eq!(e.kind, ErrorKind::StatusCode);
                assert_eq!(e.message, "invalid HTTP status code");
            }
        }
    }
}

#[test]
fn general_faults_come_before_advanced_ones() {
    let g = FileGeneral { maintenance_mode_status: Some(1), ..no_general() };
    let a = FileAdvanced { rewrites: Some(vec![rewrite("[")]), ..no_advanced() };
    let e = Settings::parse_from(cli(), loaded(Some(g), Some(a)), &around()).err().unwrap();
    assert_eq!(e.kind, ErrorKind::StatusCode);
}

#[test]
fn proxy_defaults() {
    let a = compile_advanced(no_advanced(), &around()).unwrap();
    assert!(a.headers.is_none() && a.rewrites.is_none() && a.redirects.is_none());
    assert!(a.virtual_hosts.is_none() && a.proxies.is_none() && a.proxy_defs.is_none());
    assert_eq!(format!("{:?}", a.proxy_settings), format!("{:?}", ProxySettings::default()));
    assert_eq!(a.proxy_settings.pool_max_idle_per_host, 32);
    assert_eq!(a.proxy_settings.pool_idle_timeout_secs, 90);
    assert!(!a.proxy_settings.proxy_first);
    assert_eq!(a.proxy_settings.max_upgrade_tunnels, None);
}

#[test]
fn proxy_options() {
    let options = FileAdvanced {
        proxy_pool_max_idle_per_host: Some(7),
        proxy_pool_idle_timeout_secs: Some(8),
        proxy_first: Some(true),
        max_upgrade_tunnels: Some(9),
        proxy_tls: Some(ProxyTls {
            ca_file: Some(s("~/ca.pem")),
            ca_files: None,
            disable_webpki_roots: Some(true),
        }),
        proxies: Some(vec![]),
        ..no_advanced()
    };
    let around = Surroundings {
        home: Some(s("/home/u")),
        regular_files: vec![s("/home/u/ca.pem")],
        virtual_host_roots: vec![],
    };
    let a = compile_advanced(options, &around).unwrap();
    assert_eq!(a.proxy_settings.pool_max_idle_per_host, 7);
    assert_eq!(a.proxy_settings.pool_idle_timeout_secs, 8);
    assert!(a.proxy_settings.proxy_first);
    assert_eq!(a.proxy_settings.max_upgrade_tunnels, Some(9));
    assert_eq!(a.proxy_settings.tls.ca_files, vec!["/home/u/ca.pem"]);
    assert!(!a.proxy_settings.tls.use_webpki_roots);
    assert_eq!(a.proxy_defs.unwrap().len(), 0);
    let options = FileAdvanced { max_upgrade_tunnels: Some(0), ..no_advanced() };
    let a = compile_advanced(options, &around).unwrap();
    assert_eq!(a.proxy_settings.max_upgrade_tunnels, None);
}

#[test]
fn custom_headers() {
    let mut map = HeaderMap::new();
    map.append("x-a", HeaderValue::from_static("1"));
    map.append("x-a", HeaderValue::from_static("2"));
    let entries = vec![FileHeaders { source: s("**/*.js"), headers: map.clone() }];
    let out = compile_headers(&entries).unwrap();
    assert_eq!(out.len(), 1);
    assert!(out[0].source.is_match("/a/b.js"));
    assert!(!out[0].source.is_match("/a/b.css"));
    assert_eq!(out[0].headers, map);
    let entries = vec![FileHeaders { source: s("[z-a]"), headers: HeaderMap::new() }];
    let e = compile_headers(&entries).err().unwrap();
    assert_eq!(e.kind, ErrorKind::GlobPattern);
    assert_eq!(e.message, "can not compile glob pattern for header source: [z-a]");
}

#[test]
fn rewrites_capture() {
    let mut entry = rewrite("/old/{*}/x");
    entry.redirect = Some(RedirectsKind::Temporary);
    let out = compile_rewrites(&vec![entry]).unwrap();
    assert_eq!(out[0].destination, "/d");
    assert_eq!(out[0].redirect, Some(RedirectsKind::Temporary));
    let found = out[0].source.captures("/old/page/x").unwrap();
    assert_eq!(&found[1], "page");
    assert!(out[0].source.captures("/old/a/b/x").is_none());
}

#[test]
fn rewrite_faults() {
    let e = compile_rewrites(&vec![rewrite("/a"), rewrite("{")]).err().unwrap();
    assert_eq!(e.kind, ErrorKind::GlobPattern);
    assert_eq!(e.message, "can not compile glob pattern for rewrite source: {");
}

#[test]
fn redirects_capture() {
    let mut entry = redirect("/from/{*}", RedirectsKind::Permanent);
    entry.host = Some(s("h"));
    let out =
        compile_redirects(&vec![entry, redirect("/b", RedirectsKind::Temporary)]).unwrap();
    assert_eq!(out[0].host.as_deref(), Some("h"));
    assert_eq!(out[0].kind, 301);
    assert_eq!(out[0].destination, "/d");
    assert_eq!(&out[0].source.captures("/from/here").unwrap()[1], "here");
    assert_eq!(out[1].kind, 302);
    assert_eq!(out[1].host, None);
    let e = compile_redirects(&vec![redirect("[", RedirectsKind::Permanent)]).err().unwrap();
    assert_eq!(e.message, "can not compile glob pattern for redirect source: [");
}

#[test]
fn regex_faults() {
    let e = compile_rewrites(&vec![rewrite("/a\\?:q")]).err().unwrap();
    assert_eq!(e.kind, ErrorKind::RegexPattern);
    assert_eq!(
        e.message,
        "can not compile regex pattern equivalent for rewrite source: ^/a\\q$"
    );
    let e = compile_redirects(&vec![redirect("/a\\?:q", RedirectsKind::Permanent)]).err().unwrap();
    assert_eq!(
        e.message,
        "can not compile regex pattern equivalent for redirect source: ^/a\\q$"
    );
}

#[test]
fn virtual_hosts_need_their_roots() {
    let entries = vec![
        FileVirtualHosts { host: s("a"), root: Some(s("./a")) },
        FileVirtualHosts { host: s("b"), root: None },
        FileVirtualHosts { host: s("c"), root: Some(s("./c")) },
    ];
    let roots = vec![Some(s("/srv/a")), None, Some(s("/srv/c"))];
    let out = compile_virtual_hosts(&entries, &roots).unwrap();
    assert_eq!(out.len(), 2);
    assert_eq!((out[0].host.as_str(), out[0].root.as_str()), ("a", "/srv/a"));
    assert_eq!((out[1].host.as_str(), out[1].root.as_str()), ("c", "/srv/c"));
    let e = compile_virtual_hosts(&entries, &vec![None, None, None]).err().unwrap();
    assert_eq!(e.kind, ErrorKind::VirtualHostRoot);
    assert_eq!(e.message, "root directory for virtual host was not found or inaccessible");
}

#[test]
fn advanced_faults_in_order() {
    let tls = ProxyTls { ca_file: None, ca_files: None, disable_webpki_roots: Some(true) };
    let host = FileVirtualHosts { host: s("a"), root: Some(s("./a")) };
    let around = Surroundings { home: None, regular_files: vec![], virtual_host_roots: vec![None] };
    let options = FileAdvanced {
        redirects: Some(vec![redirect("[", RedirectsKind::Permanent)]),
        proxy_tls: Some(tls),
        virtual_hosts: Some(vec![host]),
        ..no_advanced()
    };
    assert_eq!(compile_advanced(options, &around).err().unwrap().kind, ErrorKind::GlobPattern);
    let tls = ProxyTls { ca_file: None, ca_files: None, disable_webpki_roots: Some(true) };
    let host = FileVirtualHosts { host: s("a"), root: Some(s("./a")) };
    let options = FileAdvanced {
        proxy_tls: Some(tls),
        virtual_hosts: Some(vec![host]),
        ..no_advanced()
    };
    assert_eq!(compile_advanced(options, &around).err().unwrap().kind, ErrorKind::TlsNoTrust);
    let host = FileVirtualHosts { host: s("a"), root: Some(s("./a")) };
    let options = FileAdvanced { virtual_hosts: Some(vec![host]), ..no_advanced() };
    assert_eq!(compile_advanced(options, &around).err().unwrap().kind, ErrorKind::VirtualHostRoot);
}

#[test]
fn configuration_files() {
    assert_eq!(
        default_config_files(),
        vec!["./weavegate.toml", "./sws.toml", "./edgegate.toml", "./config.toml"]
    );
    let all = default_config_files();
    let c = choose_config_file(&all, "x");
    assert_eq!((c.path.as_str(), c.warning), ("./weavegate.toml", None));
    let c = choose_config_file(&vec![s("./config.toml"), s("./edgegate.toml")], "x");
    assert_eq!(c.path, "./edgegate.toml");
    assert_eq!(
        c.warning.as_deref(),
        Some("Deprecated: 'edgegate.toml' found, rename it to 'weavegate.toml' for future releases")
    );
    let c = choose_config_file(&vec![s("./sws.toml")], "x");
    assert_eq!(
        c.warning.as_deref(),
        Some("Deprecated: 'sws.toml' found, rename it to 'weavegate.toml' for future releases")
    );
    let c = choose_config_file(&vec![s("./config.toml")], "x");
    assert_eq!(c.path, "./config.toml");
    let c = choose_config_file(&vec![], "my.toml");
    assert_eq!((c.path.as_str(), c.warning), ("my.toml", None));
}

#[test]
fn generated_files() {
    for (completions, man_pages, both) in
        [(false, false, (true, true)), (true, false, (true, false)), (false, true, (false, true)), (true, true, (true, true))]
    {
        let c = Commands::Generate { completions, man_pages, out_dir: s("out") };
        assert_eq!((c.writes_completions(), c.writes_man_pages()), both);
    }
}
