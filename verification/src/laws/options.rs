//! Which options the gateway runs with.

use vstd::prelude::*;

use crate::error::{ErrorKind, ErrorView, GatewayError};
use crate::glob::{capturing, glob_paths, glob_regex, matched_paths, regex_accepted, regex_text};
use crate::headers::header_contents;
use crate::laws::text::law_first_error;
use crate::proxy_client::{anchor_views, byte_strings, Anchor};
use crate::routes::document::RouteEntry;
use crate::settings::advanced::{
    advanced_compiled, advanced_error, header_errors, host_errors, host_views, pattern_error,
    proxy_settings_compiled, redirect_errors, rewrite_errors, rooted_hosts, Surroundings,
};
use crate::settings::cli::General;
use crate::settings::file;
use crate::settings::file::{def_views, Proxy, RedirectsKind};
use crate::settings::merge::{general_error, merged_log_level, merged_options};
use crate::settings::tls::tls_error;
use crate::settings::{
    advanced_resolved, chosen_config, config_warning, general_merged, next_position,
    settings_error, uri_texts, uri_views, Advanced, ProxySettings, UpstreamUriTemplate, VirtualHosts,
};
use crate::status::shown_status;
use crate::text::{decimal, opt_text, replaced, texts, without_leading};
use crate::uri::Uri;

verus! {

/// Every general option of the configuration file, where it is given there, stands in place of that of
/// the command line, which stays otherwise. The path of the configuration file is the one that was
/// read. Security headers are also sent where HTTP/2 is served and the configuration file is silent.
pub proof fn law_merged_options(cli: General, from_file: file::General, path: String)
    ensures
        ({
            let out = merged_options(cli, from_file, path);
            &&& out.version == cli.version
            &&& out.commands == cli.commands
            &&& out.config_file == path
            &&& match from_file.host {
                Some(v) => out.host == v,
                None => out.host == cli.host,
            }
            &&& match from_file.port {
                Some(v) => out.port == v,
                None => out.port == cli.port,
            }
            &&& match from_file.root {
                Some(v) => out.root == v,
                None => out.root == cli.root,
            }
            &&& match from_file.log_with_ansi {
                Some(v) => out.log_with_ansi == v,
                None => out.log_with_ansi == cli.log_with_ansi,
            }
            &&& match from_file.cache_control_headers {
                Some(v) => out.cache_control_headers == v,
                None => out.cache_control_headers == cli.cache_control_headers,
            }
            &&& match from_file.compression {
                Some(v) => out.compression == v,
                None => out.compression == cli.compression,
            }
            &&& match from_file.compression_level {
                Some(v) => out.compression_level == v,
                None => out.compression_level == cli.compression_level,
            }
            &&& match from_file.compression_static {
                Some(v) => out.compression_static == v,
                None => out.compression_static == cli.compression_static,
            }
            &&& match from_file.page404 {
                Some(v) => out.page404 == v,
                None => out.page404 == cli.page404,
            }
            &&& match from_file.page50x {
                Some(v) => out.page50x == v,
                None => out.page50x == cli.page50x,
            }
            &&& match from_file.http2 {
                Some(v) => out.http2 == v,
                None => out.http2 == cli.http2,
            }
            &&& match from_file.http2_tls_cert {
                Some(v) => out.http2_tls_cert == Some(v),
                None => out.http2_tls_cert == cli.http2_tls_cert,
            }
            &&& match from_file.http2_tls_key {
                Some(v) => out.http2_tls_key == Some(v),
                None => out.http2_tls_key == cli.http2_tls_key,
            }
            &&& match from_file.https_redirect {
                Some(v) => out.https_redirect == v,
                None => out.https_redirect == cli.https_redirect,
            }
            &&& match from_file.https_redirect_host {
                Some(v) => out.https_redirect_host == v,
                None => out.https_redirect_host == cli.https_redirect_host,
            }
            &&& match from_file.https_redirect_from_port {
                Some(v) => out.https_redirect_from_port == v,
                None => out.https_redirect_from_port == cli.https_redirect_from_port,
            }
            &&& match from_file.https_redirect_from_hosts {
                Some(v) => out.https_redirect_from_hosts == v,
                None => out.https_redirect_from_hosts == cli.https_redirect_from_hosts,
            }
            &&& match from_file.cors_allow_origins {
                Some(v) => out.cors_allow_origins == v,
                None => out.cors_allow_origins == cli.cors_allow_origins,
            }
            &&& match from_file.cors_allow_headers {
                Some(v) => out.cors_allow_headers == v,
                None => out.cors_allow_headers == cli.cors_allow_headers,
            }
            &&& match from_file.cors_expose_headers {
                Some(v) => out.cors_expose_headers == v,
                None => out.cors_expose_headers == cli.cors_expose_headers,
            }
            &&& match from_file.directory_listing {
                Some(v) => out.directory_listing == v,
                None => out.directory_listing == cli.directory_listing,
            }
            &&& match from_file.directory_listing_order {
                Some(v) => out.directory_listing_order == v,
                None => out.directory_listing_order == cli.directory_listing_order,
            }
            &&& match from_file.directory_listing_format {
                Some(v) => out.directory_listing_format == v,
                None => out.directory_listing_format == cli.directory_listing_format,
            }
            &&& match from_file.directory_listing_download {
                Some(v) => out.directory_listing_download == v,
                None => out.directory_listing_download == cli.directory_listing_download,
            }
            &&& match from_file.basic_auth {
                Some(v) => out.basic_auth == v,
                None => out.basic_auth == cli.basic_auth,
            }
            &&& match from_file.fd {
                Some(v) => out.fd == Some(v),
                None => out.fd == cli.fd,
            }
            &&& match from_file.threads_multiplier {
                Some(v) => out.threads_multiplier == v,
                None => out.threads_multiplier == cli.threads_multiplier,
            }
            &&& match from_file.max_blocking_threads {
                Some(v) => out.max_blocking_threads == v,
                None => out.max_blocking_threads == cli.max_blocking_threads,
            }
            &&& match from_file.grace_period {
                Some(v) => out.grace_period == v,
                None => out.grace_period == cli.grace_period,
            }
            &&& match from_file.page_fallback {
                Some(v) => out.page_fallback == v,
                None => out.page_fallback == cli.page_fallback,
            }
            &&& match from_file.log_remote_address {
                Some(v) => out.log_remote_address == v,
                None => out.log_remote_address == cli.log_remote_address,
            }
            &&& match from_file.log_x_real_ip {
                Some(v) => out.log_x_real_ip == v,
                None => out.log_x_real_ip == cli.log_x_real_ip,
            }
            &&& match from_file.log_forwarded_for {
                Some(v) => out.log_forwarded_for == v,
                None => out.log_forwarded_for == cli.log_forwarded_for,
            }
            &&& match from_file.trusted_proxies {
                Some(v) => out.trusted_proxies == v,
                None => out.trusted_proxies == cli.trusted_proxies,
            }
            &&& match from_file.redirect_trailing_slash {
                Some(v) => out.redirect_trailing_slash == v,
                None => out.redirect_trailing_slash == cli.redirect_trailing_slash,
            }
            &&& match from_file.ignore_hidden_files {
                Some(v) => out.ignore_hidden_files == v,
                None => out.ignore_hidden_files == cli.ignore_hidden_files,
            }
            &&& match from_file.disable_symlinks {
                Some(v) => out.disable_symlinks == v,
                None => out.disable_symlinks == cli.disable_symlinks,
            }
            &&& match from_file.accept_markdown {
                Some(v) => out.accept_markdown == v,
                None => out.accept_markdown == cli.accept_markdown,
            }
            &&& match from_file.text_charset {
                Some(v) => out.text_charset == v,
                None => out.text_charset == cli.text_charset,
            }
            &&& match from_file.index_files {
                Some(v) => out.index_files == v,
                None => out.index_files == cli.index_files,
            }
            &&& match from_file.health {
                Some(v) => out.health == v,
                None => out.health == cli.health,
            }
            &&& match from_file.metrics {
                Some(v) => out.metrics == v,
                None => out.metrics == cli.metrics,
            }
            &&& match from_file.maintenance_mode {
                Some(v) => out.maintenance_mode == v,
                None => out.maintenance_mode == cli.maintenance_mode,
            }
            &&& match from_file.maintenance_mode_status {
                Some(v) => out.maintenance_mode_status == v,
                None => out.maintenance_mode_status == cli.maintenance_mode_status,
            }
            &&& match from_file.maintenance_mode_file {
                Some(v) => out.maintenance_mode_file == v,
                None => out.maintenance_mode_file == cli.maintenance_mode_file,
            }
            &&& from_file.security_headers matches Some(v) ==> out.security_headers == v
            &&& from_file.security_headers is None && (from_file.http2 == Some(true)
                || from_file.http2 is None && cli.http2) ==> out.security_headers
            &&& from_file.security_headers is None && !(from_file.http2 == Some(true)
                || from_file.http2 is None && cli.http2) ==> out.security_headers
                == cli.security_headers
        }),
{
}

/// The logging level is that of the configuration file, in lower case, or else that of the command
/// line.
pub proof fn law_log_level(cli: General, from_file: file::General)
    ensures
        match from_file.log_level {
            Some(file::LogLevel::Error) => merged_log_level(cli, from_file) == "error"@,
            Some(file::LogLevel::Warn) => merged_log_level(cli, from_file) == "warn"@,
            Some(file::LogLevel::Info) => merged_log_level(cli, from_file) == "info"@,
            Some(file::LogLevel::Debug) => merged_log_level(cli, from_file) == "debug"@,
            Some(file::LogLevel::Trace) => merged_log_level(cli, from_file) == "trace"@,
            None => merged_log_level(cli, from_file) == cli.log_level@,
        },
{
    reveal_strlit("ERROR");
    reveal_strlit("WARN");
    reveal_strlit("INFO");
    reveal_strlit("DEBUG");
    reveal_strlit("TRACE");
    reveal_strlit("error");
    reveal_strlit("warn");
    reveal_strlit("info");
    reveal_strlit("debug");
    reveal_strlit("trace");
    match from_file.log_level {
        Some(file::LogLevel::Error) => assert(merged_log_level(cli, from_file) =~= "error"@),
        Some(file::LogLevel::Warn) => assert(merged_log_level(cli, from_file) =~= "warn"@),
        Some(file::LogLevel::Info) => assert(merged_log_level(cli, from_file) =~= "info"@),
        Some(file::LogLevel::Debug) => assert(merged_log_level(cli, from_file) =~= "debug"@),
        Some(file::LogLevel::Trace) => assert(merged_log_level(cli, from_file) =~= "trace"@),
        None => {},
    }
}

/// The general options of a configuration file are refused exactly where the status code of the
/// maintenance page does not have three digits. Without general options in the file those of the command
/// line are taken, with the path of the file.
pub proof fn law_general_options(
    out: General,
    cli: General,
    from_file: Option<file::General>,
    path: String,
)
    ensures
        from_file matches Some(g) ==> (general_error(g) is Some <==> g.maintenance_mode_status is Some
            && !(100 <= g.maintenance_mode_status->0 < 1000)),
        from_file matches Some(g) ==> (general_error(g) matches Some(e) ==> e == (ErrorView {
            kind: ErrorKind::StatusCode,
            message: "invalid HTTP status code"@,
        })),
        from_file is None && general_merged(out, cli, from_file, path) ==> out == (General {
            config_file: path,
            ..cli
        }),
        from_file is Some && general_merged(out, cli, from_file, path) ==> out == (General {
            log_level: out.log_level,
            ..merged_options(cli, from_file->0, path)
        }) && out.log_level@ == merged_log_level(cli, from_file->0),
{
}

/// Of the default names the first one that exists is used, in a fixed order, and where none exists the
/// file that was asked for. All but the first name are deprecated, and the warning says so.
pub proof fn law_config_file(existing: Seq<Seq<char>>, asked: Seq<char>)
    ensures
        existing.contains("./weavegate.toml"@) ==> chosen_config(existing, asked)
            == "./weavegate.toml"@ && config_warning(existing) is None,
        !existing.contains("./weavegate.toml"@) && existing.contains("./sws.toml"@)
            ==> chosen_config(existing, asked) == "./sws.toml"@ && config_warning(existing) == Some(
            "Deprecated: 'sws.toml' found, rename it to 'weavegate.toml' for future releases"@,
        ),
        !existing.contains("./weavegate.toml"@) && !existing.contains("./sws.toml"@)
            && existing.contains("./edgegate.toml"@) ==> chosen_config(existing, asked)
            == "./edgegate.toml"@ && config_warning(existing) == Some(
            "Deprecated: 'edgegate.toml' found, rename it to 'weavegate.toml' for future releases"@,
        ),
        !existing.contains("./weavegate.toml"@) && !existing.contains("./sws.toml"@)
            && !existing.contains("./edgegate.toml"@) && existing.contains("./config.toml"@)
            ==> chosen_config(existing, asked) == "./config.toml"@ && config_warning(existing) == Some(
            "Deprecated: 'config.toml' found, rename it to 'weavegate.toml' for future releases"@,
        ),
        !existing.contains("./weavegate.toml"@) && !existing.contains("./sws.toml"@)
            && !existing.contains("./edgegate.toml"@) && !existing.contains("./config.toml"@)
            ==> chosen_config(existing, asked) == asked && config_warning(existing) is None,
{
    reveal_strlit("Deprecated: '");
    reveal_strlit("' found, rename it to 'weavegate.toml' for future releases");
    reveal_strlit("sws.toml");
    reveal_strlit("edgegate.toml");
    reveal_strlit("config.toml");
    reveal_strlit("Deprecated: 'sws.toml' found, rename it to 'weavegate.toml' for future releases");
    reveal_strlit(
        "Deprecated: 'edgegate.toml' found, rename it to 'weavegate.toml' for future releases",
    );
    reveal_strlit(
        "Deprecated: 'config.toml' found, rename it to 'weavegate.toml' for future releases",
    );
    let head = "Deprecated: '"@;
    let tail = "' found, rename it to 'weavegate.toml' for future releases"@;
    assert(head + "sws.toml"@ + tail
        =~= "Deprecated: 'sws.toml' found, rename it to 'weavegate.toml' for future releases"@);
    assert(head + "edgegate.toml"@ + tail
        =~= "Deprecated: 'edgegate.toml' found, rename it to 'weavegate.toml' for future releases"@);
    assert(head + "config.toml"@ + tail
        =~= "Deprecated: 'config.toml' found, rename it to 'weavegate.toml' for future releases"@);
}

/// The settings of the proxy: as the options say, and where they are silent 32 idle connections per
/// upstream, 90 seconds for each, rules behind redirects and rewrites, and any number of tunnels, as with
/// a limit of zero.
pub proof fn law_proxy_settings(out: ProxySettings, options: file::Advanced, around: Surroundings)
    requires
        proxy_settings_compiled(out, options, around),
    ensures
        options.proxy_pool_max_idle_per_host matches Some(n) ==> out.pool_max_idle_per_host == n,
        options.proxy_pool_max_idle_per_host is None ==> out.pool_max_idle_per_host == 32,
        options.proxy_pool_idle_timeout_secs matches Some(n) ==> out.pool_idle_timeout_secs == n,
        options.proxy_pool_idle_timeout_secs is None ==> out.pool_idle_timeout_secs == 90,
        out.proxy_first <==> options.proxy_first == Some(true),
        out.max_upgrade_tunnels is None <==> options.max_upgrade_tunnels is None
            || options.max_upgrade_tunnels == Some(0usize),
        out.max_upgrade_tunnels is Some ==> out.max_upgrade_tunnels == options.max_upgrade_tunnels,
        options.proxy_tls matches Some(tls) ==> out.tls.use_webpki_roots == (tls.disable_webpki_roots
            != Some(true)),
        options.proxy_tls is None ==> out.tls.use_webpki_roots && out.tls.ca_files@.len() == 0,
{
}

/// Two settings are the same only where they agree in every part; the default ones are as documented.
pub proof fn law_same_settings(a: ProxySettings, b: ProxySettings)
    ensures
        a.same(b) ==> {
            &&& a.pool_max_idle_per_host == b.pool_max_idle_per_host
            &&& a.pool_idle_timeout_secs == b.pool_idle_timeout_secs
            &&& a.proxy_first == b.proxy_first
            &&& a.max_upgrade_tunnels == b.max_upgrade_tunnels
            &&& a.tls.ca_files@ == b.tls.ca_files@
            &&& a.tls.use_webpki_roots == b.tls.use_webpki_roots
        },
        a.is_default() ==> {
            &&& a.pool_max_idle_per_host == 32
            &&& a.pool_idle_timeout_secs == 90
            &&& !a.proxy_first
            &&& a.max_upgrade_tunnels is None
            &&& a.tls.ca_files@.len() == 0
            &&& a.tls.use_webpki_roots
        },
{
}

/// The advanced options of a configuration file, compiled: custom headers, rewrites and redirects are
/// taken over one by one, each with its pattern compiled, redirects with status 301 or 302 and for the
/// host that they name. The rules of the proxy and where more of them come from are taken over as they
/// are, and no rule is compiled yet.
pub proof fn law_advanced_options(
    out: Advanced,
    options: file::Advanced,
    around: Surroundings,
    i: int,
)
    requires
        advanced_compiled(out, options, around),
    ensures
        options.headers is Some <==> out.headers is Some,
        options.headers matches Some(entries) ==> {
            &&& out.headers->0@.len() == entries@.len()
            &&& 0 <= i < entries@.len() ==> {
                &&& glob_paths(entries@[i].source@) == Some(
                    matched_paths(out.headers->0@[i].source),
                )
                &&& header_contents(out.headers->0@[i].headers) == header_contents(
                    entries@[i].headers,
                )
            }
        },
        options.rewrites is Some <==> out.rewrites is Some,
        options.rewrites matches Some(entries) ==> {
            &&& out.rewrites->0@.len() == entries@.len()
            &&& 0 <= i < entries@.len() ==> {
                &&& glob_regex(entries@[i].source@) is Some
                &&& regex_text(out.rewrites->0@[i].source) == capturing(
                    glob_regex(entries@[i].source@)->0,
                )
                &&& out.rewrites->0@[i].destination@ == entries@[i].destination@
                &&& out.rewrites->0@[i].redirect == entries@[i].redirect
            }
        },
        options.redirects is Some <==> out.redirects is Some,
        options.redirects matches Some(entries) ==> {
            &&& out.redirects->0@.len() == entries@.len()
            &&& 0 <= i < entries@.len() ==> {
                &&& glob_regex(entries@[i].source@) is Some
                &&& regex_text(out.redirects->0@[i].source) == capturing(
                    glob_regex(entries@[i].source@)->0,
                )
                &&& out.redirects->0@[i].destination@ == entries@[i].destination@
                &&& match entries@[i].host {
                    Some(h) => out.redirects->0@[i].host is Some && out.redirects->0@[i].host->0@
                        == h@,
                    None => out.redirects->0@[i].host is None,
                }
                &&& out.redirects->0@[i].kind == (if entries@[i].kind is Permanent {
                    301u16
                } else {
                    302u16
                })
            }
        },
        options.virtual_hosts is Some <==> out.virtual_hosts is Some,
        options.virtual_hosts matches Some(entries) ==> host_views(out.virtual_hosts->0@)
            == rooted_hosts(entries@, around.virtual_host_roots@),
        out.proxies is None,
        out.proxy_defs == options.proxies,
        out.routes_bootstrap == options.routes_bootstrap,
        proxy_settings_compiled(out.proxy_settings, options, around),
{
    if options.headers is Some && 0 <= i < options.headers->0@.len() {
        assert(crate::settings::advanced::header_compiled(
            out.headers->0@[i],
            options.headers->0@[i],
        ));
    }
    if options.rewrites is Some && 0 <= i < options.rewrites->0@.len() {
        assert(crate::settings::advanced::rewrite_compiled(
            out.rewrites->0@[i],
            options.rewrites->0@[i],
        ));
    }
    if options.redirects is Some && 0 <= i < options.redirects->0@.len() {
        assert(crate::settings::advanced::redirect_compiled(
            out.redirects->0@[i],
            options.redirects->0@[i],
        ));
    }
}

/// A redirection is permanent with 301, and otherwise found with 302.
pub proof fn law_redirect_status(kind: RedirectsKind)
    ensures
        kind is Permanent ==> kind.status() == 301,
        kind is Temporary ==> kind.status() == 302,
{
}

/// Virtual hosts are taken over in their order, those that name a root directory and no others, each
/// with the directory that was found.
pub proof fn law_virtual_hosts(
    entries: Seq<file::VirtualHosts>,
    roots: Seq<Option<String>>,
)
    requires
        roots.len() == entries.len(),
    ensures
        rooted_hosts(entries, roots) == Seq::new(
            entries.len(),
            |i: int| (entries[i].root is Some, (entries[i].host@, roots[i]->0@)),
        ).filter(|p: (bool, (Seq<char>, Seq<char>))| p.0).map_values(
            |p: (bool, (Seq<char>, Seq<char>))| p.1,
        ),
    decreases entries.len(),
{
    reveal(Seq::filter);
    let pairs = Seq::new(
        entries.len(),
        |i: int| (entries[i].root is Some, (entries[i].host@, roots[i]->0@)),
    );
    let named = |p: (bool, (Seq<char>, Seq<char>))| p.0;
    let view = |p: (bool, (Seq<char>, Seq<char>))| p.1;
    if entries.len() > 0 {
        let front = entries.drop_last();
        law_virtual_hosts(front, roots.drop_last());
        assert(pairs.drop_last() =~= Seq::new(
            front.len(),
            |i: int| (front[i].root is Some, (front[i].host@, roots.drop_last()[i]->0@)),
        ));
        assert(rooted_hosts(entries, roots) =~= pairs.filter(named).map_values(view));
    } else {
        assert(rooted_hosts(entries, roots) =~= pairs.filter(named).map_values(view));
    }
}

/// A pattern of a rewrite or redirect is accepted exactly where it is a glob and the expression that is
/// made of it, with groups that capture, is accepted.
pub proof fn law_pattern(source: Seq<char>, glob_head: Seq<char>, regex_head: Seq<char>)
    ensures
        pattern_error(source, glob_head, regex_head) is None <==> glob_regex(source) is Some
            && regex_accepted(capturing(glob_regex(source)->0)),
        glob_regex(source) is None ==> pattern_error(source, glob_head, regex_head) == Some(
            ErrorView { kind: ErrorKind::GlobPattern, message: glob_head + source },
        ),
        glob_regex(source) is Some && !regex_accepted(capturing(glob_regex(source)->0))
            ==> pattern_error(source, glob_head, regex_head) == Some(
            ErrorView {
                kind: ErrorKind::RegexPattern,
                message: regex_head + capturing(glob_regex(source)->0),
            },
        ),
{
}

/// The expression of a pattern loses its flags and the marks of groups that do not capture, and
/// doubled wildcards become single.
pub proof fn law_capturing(regex: Seq<char>, groups: Seq<char>, plain: Seq<char>, open: Seq<char>)
    requires
        plain == without_leading(regex, "(?-u)"@),
        open == replaced(plain, "?:.*"@, ".*"@),
        groups == replaced(open, "?:"@, Seq::empty()),
    ensures
        capturing(regex) == replaced(groups, ".*.*"@, ".*"@),
{
    reveal_strlit("");
    assert(""@ =~= Seq::empty());
}

/// Advanced options are refused for the first fault in the headers, or else the rewrites, the
/// redirects, the trust settings and the virtual hosts, and only for such a fault.
pub proof fn law_advanced_errors(options: file::Advanced, around: Surroundings)
    ensures
        ({
            let headers = options.headers is Some && exists|i: int|
                0 <= i < options.headers->0@.len() && glob_paths(
                    (#[trigger] options.headers->0@[i]).source@,
                ) is None;
            let rewrites = options.rewrites is Some && exists|i: int|
                0 <= i < options.rewrites->0@.len() && pattern_error(
                    (#[trigger] options.rewrites->0@[i]).source@,
                    "can not compile glob pattern for rewrite source: "@,
                    "can not compile regex pattern equivalent for rewrite source: "@,
                ) is Some;
            let redirects = options.redirects is Some && exists|i: int|
                0 <= i < options.redirects->0@.len() && pattern_error(
                    (#[trigger] options.redirects->0@[i]).source@,
                    "can not compile glob pattern for redirect source: "@,
                    "can not compile regex pattern equivalent for redirect source: "@,
                ) is Some;
            let home = match around.home {
                Some(h) => Some(h@),
                None => None,
            };
            let tls = options.proxy_tls is Some && tls_error(
                options.proxy_tls->0,
                home,
                texts(around.regular_files@),
            ) is Some;
            let hosts = options.virtual_hosts is Some && exists|i: int|
                0 <= i < options.virtual_hosts->0@.len() && (
                #[trigger] options.virtual_hosts->0@[i]).root is Some
                    && around.virtual_host_roots@[i] is None;
            &&& advanced_error(options, around) is Some <==> headers || rewrites || redirects || tls
                || hosts
            &&& headers ==> advanced_error(options, around)->0.kind is GlobPattern
            &&& !headers && !rewrites && !redirects && tls ==> advanced_error(options, around)
                == tls_error(options.proxy_tls->0, home, texts(around.regular_files@))
            &&& !headers && !rewrites && !redirects && !tls && hosts ==> advanced_error(
                options,
                around,
            )->0.kind is VirtualHostRoot
        }),
{
    if let Some(entries) = options.headers {
        let errors = header_errors(entries@);
        law_first_error(errors);
        lemma_some_error(errors);
        assert forall|i: int| 0 <= i < errors.len() implies (#[trigger] errors[i] is Some
            <==> glob_paths(entries@[i].source@) is None) by {}
        if exists|i: int|
            0 <= i < entries@.len() && glob_paths((#[trigger] entries@[i]).source@) is None {
            let i = choose|i: int|
                0 <= i < entries@.len() && glob_paths((#[trigger] entries@[i]).source@) is None;
            assert(errors[i] is Some);
        } else {
            assert forall|i: int| 0 <= i < errors.len() implies #[trigger] errors[i] is None by {
                assert(!(glob_paths(entries@[i].source@) is None));
            }
        }
    }
    if let Some(entries) = options.rewrites {
        let errors = rewrite_errors(entries@);
        law_first_error(errors);
        if exists|i: int|
            0 <= i < entries@.len() && pattern_error(
                (#[trigger] entries@[i]).source@,
                "can not compile glob pattern for rewrite source: "@,
                "can not compile regex pattern equivalent for rewrite source: "@,
            ) is Some {
            let i = choose|i: int|
                0 <= i < entries@.len() && pattern_error(
                    (#[trigger] entries@[i]).source@,
                    "can not compile glob pattern for rewrite source: "@,
                    "can not compile regex pattern equivalent for rewrite source: "@,
                ) is Some;
            assert(errors[i] is Some);
        } else {
            assert forall|i: int| 0 <= i < errors.len() implies #[trigger] errors[i] is None by {
                assert(entries@[i].source@ == entries@[i].source@);
            }
        }
    }
    if let Some(entries) = options.redirects {
        let errors = redirect_errors(entries@);
        law_first_error(errors);
        if exists|i: int|
            0 <= i < entries@.len() && pattern_error(
                (#[trigger] entries@[i]).source@,
                "can not compile glob pattern for redirect source: "@,
                "can not compile regex pattern equivalent for redirect source: "@,
            ) is Some {
            let i = choose|i: int|
                0 <= i < entries@.len() && pattern_error(
                    (#[trigger] entries@[i]).source@,
                    "can not compile glob pattern for redirect source: "@,
                    "can not compile regex pattern equivalent for redirect source: "@,
                ) is Some;
            assert(errors[i] is Some);
        } else {
            assert forall|i: int| 0 <= i < errors.len() implies #[trigger] errors[i] is None by {
                assert(entries@[i].source@ == entries@[i].source@);
            }
        }
    }
    if let Some(entries) = options.virtual_hosts {
        let errors = host_errors(entries@, around.virtual_host_roots@);
        law_first_error(errors);
        lemma_some_error(errors);
        if exists|i: int|
            0 <= i < entries@.len() && (#[trigger] entries@[i]).root is Some
                && around.virtual_host_roots@[i] is None {
            let i = choose|i: int|
                0 <= i < entries@.len() && (#[trigger] entries@[i]).root is Some
                    && around.virtual_host_roots@[i] is None;
            assert(errors[i] is Some);
        } else {
            assert forall|i: int| 0 <= i < errors.len() implies #[trigger] errors[i] is None by {
                assert(entries@[i].root == entries@[i].root);
            }
        }
    }
}

proof fn lemma_some_error(errors: Seq<Option<ErrorView>>)
    ensures
        crate::error::first_error(errors) is Some ==> errors.contains(
            crate::error::first_error(errors),
        ),
    decreases errors.len(),
{
    if errors.len() > 0 {
        lemma_some_error(errors.drop_last());
        if crate::error::first_error(errors.drop_last()) is Some {
            let e = crate::error::first_error(errors.drop_last());
            let i = choose|i: int| 0 <= i < errors.drop_last().len() && errors.drop_last()[i] == e;
            assert(errors[i] == e);
        } else {
            assert(errors[errors.len() - 1] == errors.last());
        }
    }
}

/// The counter of a balancer goes up by one, and from the largest number to zero.
pub proof fn law_next_position(position: usize)
    ensures
        position < usize::MAX ==> next_position(position) == position + 1,
        position == usize::MAX ==> next_position(position) == 0,
{
}

/// A status is shown as its number, a space and its phrase.
pub proof fn law_shown_status(code: u16, phrase: Seq<char>)
    ensures
        shown_status(code, Some(phrase)) == decimal(code as nat) + " "@ + phrase,
        shown_status(code, None) == decimal(code as nat) + " <unknown status code>"@,
{
    reveal_strlit(" ");
    reveal_strlit("<unknown status code>");
    reveal_strlit(" <unknown status code>");
    assert(" <unknown status code>"@ =~= " "@ + "<unknown status code>"@);
    assert(shown_status(code, None) =~= decimal(code as nat) + " <unknown status code>"@);
}

/// Definitions, routes, URIs, templates, trust anchors and errors are seen with all their parts.
pub proof fn law_views(
    def: Proxy,
    route: RouteEntry,
    uri: Uri,
    template: UpstreamUriTemplate,
    anchor: Anchor,
    error: GatewayError,
)
    ensures
        anchor@.subject == anchor.subject@,
        anchor@.spki == anchor.spki@,
        match anchor.name_constraints {
            Some(bytes) => anchor@.name_constraints == Some(bytes@),
            None => anchor@.name_constraints is None,
        },
        error@.kind == error.kind,
        error@.message == error.message@,
        def@.name == opt_text(def.name),
        def@.host == opt_text(def.host),
        def@.source == def.source@,
        def@.target == opt_text(def.target),
        match def.targets {
            Some(list) => def@.targets == Some(texts(list@)),
            None => def@.targets is None,
        },
        def@.strip_prefix == opt_text(def.strip_prefix),
        route@.name == opt_text(route.name),
        route@.host == opt_text(route.host),
        route@.source == route.source@,
        route@.target == opt_text(route.target),
        match route.targets {
            Some(list) => route@.targets == Some(texts(list@)),
            None => route@.targets is None,
        },
        route@.strip_prefix == opt_text(route.strip_prefix),
        uri@.text == uri.text@,
        uri@.scheme == opt_text(uri.scheme),
        uri@.authority == opt_text(uri.authority),
        uri@.host == opt_text(uri.host),
        uri@.path == uri.path@,
        uri@.path_and_query == opt_text(uri.path_and_query),
        template@.origin == template.origin@,
        template@.base_path == template.base_path@,
        template@.strip_prefix == opt_text(template.strip_prefix),
{
}

/// Lists are seen item by item, in their order.
pub proof fn law_list_views(
    strings: Seq<String>,
    defs: Seq<Proxy>,
    uris: Seq<Uri>,
    anchors: Seq<Anchor>,
    bytes: Seq<Vec<u8>>,
    hosts: Seq<VirtualHosts>,
)
    ensures
        texts(strings) == strings.map_values(|s: String| s@),
        def_views(defs) == defs.map_values(|d: Proxy| d@),
        uri_views(uris) == uris.map_values(|u: Uri| u@),
        uri_texts(uri_views(uris)) == uris.map_values(|u: Uri| u@.text),
        anchor_views(anchors) == anchors.map_values(|a: Anchor| a@),
        byte_strings(bytes) == bytes.map_values(|b: Vec<u8>| b@),
        host_views(hosts) == hosts.map_values(|h: VirtualHosts| (h.host@, h.root@)),
{
    assert(texts(strings) =~= strings.map_values(|s: String| s@));
    assert(def_views(defs) =~= defs.map_values(|d: Proxy| d@));
    assert(uri_views(uris) =~= uris.map_values(|u: Uri| u@));
    assert(uri_texts(uri_views(uris)) =~= uris.map_values(|u: Uri| u@.text));
    assert(anchor_views(anchors) =~= anchors.map_values(|a: Anchor| a@));
    assert(byte_strings(bytes) =~= bytes.map_values(|b: Vec<u8>| b@));
    assert(host_views(hosts) =~= hosts.map_values(|h: VirtualHosts| (h.host@, h.root@)));
}

/// The first custom header whose source is no glob decides the error.
pub proof fn law_header_errors(entries: Seq<file::Headers>, n: int)
    requires
        0 <= n < entries.len(),
        glob_paths(entries[n].source@) is None,
        forall|i: int| 0 <= i < n ==> glob_paths((#[trigger] entries[i]).source@) is Some,
    ensures
        crate::error::first_error(header_errors(entries)) == Some(
            ErrorView {
                kind: ErrorKind::GlobPattern,
                message: "can not compile glob pattern for header source: "@ + entries[n].source@,
            },
        ),
{
    let errors = header_errors(entries);
    law_first_error(errors);
    assert(errors[n] is Some);
    assert forall|i: int| 0 <= i < n implies #[trigger] errors[i] is None by {
        assert(glob_paths(entries[i].source@) is Some);
    }
}

/// The first rewrite whose source is refused decides the error.
pub proof fn law_rewrite_errors(entries: Seq<file::Rewrites>, n: int)
    requires
        0 <= n < entries.len(),
        forall|i: int|
            0 <= i < n ==> glob_regex((#[trigger] entries[i]).source@) is Some && regex_accepted(
                capturing(glob_regex(entries[i].source@)->0),
            ),
        !(glob_regex(entries[n].source@) is Some && regex_accepted(
            capturing(glob_regex(entries[n].source@)->0),
        )),
    ensures
        crate::error::first_error(rewrite_errors(entries)) == pattern_error(
            entries[n].source@,
            "can not compile glob pattern for rewrite source: "@,
            "can not compile regex pattern equivalent for rewrite source: "@,
        ),
{
    let errors = rewrite_errors(entries);
    law_first_error(errors);
    assert(errors[n] is Some);
    assert forall|i: int| 0 <= i < n implies #[trigger] errors[i] is None by {
        assert(glob_regex(entries[i].source@) is Some);
    }
}

/// The first redirect whose source is refused decides the error.
pub proof fn law_redirect_errors(entries: Seq<file::Redirects>, n: int)
    requires
        0 <= n < entries.len(),
        forall|i: int|
            0 <= i < n ==> glob_regex((#[trigger] entries[i]).source@) is Some && regex_accepted(
                capturing(glob_regex(entries[i].source@)->0),
            ),
        !(glob_regex(entries[n].source@) is Some && regex_accepted(
            capturing(glob_regex(entries[n].source@)->0),
        )),
    ensures
        crate::error::first_error(redirect_errors(entries)) == pattern_error(
            entries[n].source@,
            "can not compile glob pattern for redirect source: "@,
            "can not compile regex pattern equivalent for redirect source: "@,
        ),
{
    let errors = redirect_errors(entries);
    law_first_error(errors);
    assert(errors[n] is Some);
    assert forall|i: int| 0 <= i < n implies #[trigger] errors[i] is None by {
        assert(glob_regex(entries[i].source@) is Some);
    }
}

/// Virtual hosts are refused exactly where one names a root directory that was not found.
pub proof fn law_virtual_host_errors(
    entries: Seq<file::VirtualHosts>,
    roots: Seq<Option<String>>,
)
    requires
        roots.len() == entries.len(),
    ensures
        crate::error::first_error(host_errors(entries, roots)) == (if exists|i: int|
            0 <= i < entries.len() && (#[trigger] entries[i]).root is Some && roots[i] is None {
            Some(
                ErrorView {
                    kind: ErrorKind::VirtualHostRoot,
                    message: "root directory for virtual host was not found or inaccessible"@,
                },
            )
        } else {
            None
        }),
{
    let errors = host_errors(entries, roots);
    law_first_error(errors);
    lemma_some_error(errors);
    if exists|i: int|
        0 <= i < entries.len() && (#[trigger] entries[i]).root is Some && roots[i] is None {
        let i = choose|i: int|
            0 <= i < entries.len() && (#[trigger] entries[i]).root is Some && roots[i] is None;
        assert(errors[i] is Some);
    } else {
        assert forall|i: int| 0 <= i < errors.len() implies #[trigger] errors[i] is None by {
            assert(entries[i].root == entries[i].root);
        }
    }
}

/// The options of a configuration file are refused for a fault in the general ones, or else for one in
/// the advanced ones; a part that the file does not have has no fault. Advanced options are there
/// exactly where the file has them.
pub proof fn law_settings(
    from_file: file::Settings,
    around: Surroundings,
    out: Option<Advanced>,
)
    ensures
        from_file.general is Some && general_error(from_file.general->0) is Some ==> settings_error(
            from_file,
            around,
        ) == general_error(from_file.general->0),
        (from_file.general is None || general_error(from_file.general->0) is None)
            && from_file.advanced is Some ==> settings_error(from_file, around) == advanced_error(
            from_file.advanced->0,
            around,
        ),
        (from_file.general is None || general_error(from_file.general->0) is None)
            && from_file.advanced is None ==> settings_error(from_file, around) is None,
        advanced_resolved(out, from_file.advanced, around) ==> (out is Some
            <==> from_file.advanced is Some) && (from_file.advanced is Some ==> advanced_compiled(
            out->0,
            from_file.advanced->0,
            around,
        )),
{
}

} // verus!
