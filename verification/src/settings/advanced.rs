//! From the advanced options of a configuration file to those that the server runs with.

use vstd::prelude::*;

use crate::error::{
    err, error, error_about, first_error, lemma_first_error_prefix, ErrorKind, ErrorView,
    GatewayError,
};
use crate::glob::{
    build_glob_regex, capturing, capturing_pattern, compile_glob, compile_regex, fits, glob_paths,
    glob_regex, matched_paths, regex_accepted, regex_text,
};
use crate::headers::{header_clone, header_contents};
use crate::settings::file;
use crate::settings::tls::{ca_paths, public_roots_disabled, tls_error};
use crate::settings::{
    Advanced, Headers, ProxySettings, ProxyTlsSettings, Redirects, Rewrites, VirtualHosts,
};
use crate::status::status_from_u16;
use crate::text::{clone_opt, decimal_text, opt_text, texts};

verus! {

/// What is wrong with each of the custom headers.
pub open spec fn header_errors(entries: Seq<file::Headers>) -> Seq<Option<ErrorView>> {
    Seq::new(
        entries.len(),
        |i: int|
            if glob_paths(entries[i].source@) is None {
                Some(
                    err(
                        ErrorKind::GlobPattern,
                        "can not compile glob pattern for header source: "@ + entries[i].source@,
                    ),
                )
            } else {
                None
            },
    )
}

/// `out` is what a custom header is compiled to.
pub open spec fn header_compiled(out: Headers, entry: file::Headers) -> bool {
    &&& glob_paths(entry.source@) == Some(matched_paths(out.source))
    &&& header_contents(out.headers) == header_contents(entry.headers)
}

/// Compiles the custom headers.
pub fn compile_headers(entries: &Vec<file::Headers>) -> (r: Result<Vec<Headers>, GatewayError>)
    requires
        forall|i: int| 0 <= i < entries@.len() ==> fits((#[trigger] entries@[i]).source@),
    ensures
        match r {
            Ok(out) => {
                &&& first_error(header_errors(entries@)) is None
                &&& out@.len() == entries@.len()
                &&& forall|i: int|
                    0 <= i < out@.len() ==> header_compiled(#[trigger] out@[i], entries@[i])
            },
            Err(e) => first_error(header_errors(entries@)) == Some(e@),
        },
{
    let ghost errors = header_errors(entries@);
    let mut out: Vec<Headers> = Vec::new();
    let mut i: usize = 0;
    assert(errors.take(0) =~= Seq::empty());
    while i < entries.len()
        invariant
            i <= entries.len(),
            errors == header_errors(entries@),
            first_error(errors.take(i as int)) is None,
            out@.len() == i,
            forall|k: int| 0 <= k < entries@.len() ==> fits((#[trigger] entries@[k]).source@),
            forall|k: int| 0 <= k < i ==> header_compiled(#[trigger] out@[k], entries@[k]),
        decreases entries.len() - i,
    {
        assert(errors.take(i + 1).drop_last() =~= errors.take(i as int));
        assert(fits(entries@[i as int].source@));
        match compile_glob(&entries[i].source) {
            Ok(source) => {
                out.push(Headers { source, headers: header_clone(&entries[i].headers) });
            },
            Err(_) => {
                proof {
                    lemma_first_error_prefix(errors, i + 1);
                }
                return Err(
                    error_about(
                        ErrorKind::GlobPattern,
                        "can not compile glob pattern for header source: ",
                        &entries[i].source,
                    ),
                );
            },
        }
        i += 1;
    }
    assert(errors.take(i as int) =~= errors);
    Ok(out)
}

/// What is wrong with a path pattern that should capture what its parts match; `glob_head` and
/// `regex_head` are how the messages start.
pub open spec fn pattern_error(
    source: Seq<char>,
    glob_head: Seq<char>,
    regex_head: Seq<char>,
) -> Option<ErrorView> {
    match glob_regex(source) {
        None => Some(err(ErrorKind::GlobPattern, glob_head + source)),
        Some(regex) => if regex_accepted(capturing(regex)) {
            None
        } else {
            Some(err(ErrorKind::RegexPattern, regex_head + capturing(regex)))
        },
    }
}

/// Compiles a path pattern to a regular expression that captures what its parts match.
fn compile_pattern(source: &str, glob_head: &str, regex_head: &str) -> (r: Result<
    regex_lite::Regex,
    GatewayError,
>)
    requires
        fits(source@),
    ensures
        match r {
            Ok(re) => {
                &&& pattern_error(source@, glob_head@, regex_head@) is None
                &&& regex_text(re) == capturing(glob_regex(source@)->0)
            },
            Err(e) => pattern_error(source@, glob_head@, regex_head@) == Some(e@),
        },
{
    let regex = match build_glob_regex(source) {
        Ok(s) => s,
        Err(_) => {
            return Err(error_about(ErrorKind::GlobPattern, glob_head, source));
        },
    };
    let pattern = capturing_pattern(&regex);
    match compile_regex(&pattern) {
        Ok(re) => Ok(re),
        Err(_) => Err(error_about(ErrorKind::RegexPattern, regex_head, &pattern)),
    }
}

/// What is wrong with each of the rewrites.
pub open spec fn rewrite_errors(entries: Seq<file::Rewrites>) -> Seq<Option<ErrorView>> {
    Seq::new(
        entries.len(),
        |i: int|
            pattern_error(
                entries[i].source@,
                "can not compile glob pattern for rewrite source: "@,
                "can not compile regex pattern equivalent for rewrite source: "@,
            ),
    )
}

/// `out` is what a rewrite is compiled to.
pub open spec fn rewrite_compiled(out: Rewrites, entry: file::Rewrites) -> bool {
    &&& glob_regex(entry.source@) is Some
    &&& regex_text(out.source) == capturing(glob_regex(entry.source@)->0)
    &&& out.destination@ == entry.destination@
    &&& out.redirect == entry.redirect
}

/// Compiles the rewrites.
pub fn compile_rewrites(entries: &Vec<file::Rewrites>) -> (r: Result<Vec<Rewrites>, GatewayError>)
    requires
        forall|i: int| 0 <= i < entries@.len() ==> fits((#[trigger] entries@[i]).source@),
    ensures
        match r {
            Ok(out) => {
                &&& first_error(rewrite_errors(entries@)) is None
                &&& out@.len() == entries@.len()
                &&& forall|i: int|
                    0 <= i < out@.len() ==> rewrite_compiled(#[trigger] out@[i], entries@[i])
            },
            Err(e) => first_error(rewrite_errors(entries@)) == Some(e@),
        },
{
    let ghost errors = rewrite_errors(entries@);
    let mut out: Vec<Rewrites> = Vec::new();
    let mut i: usize = 0;
    assert(errors.take(0) =~= Seq::empty());
    while i < entries.len()
        invariant
            i <= entries.len(),
            errors == rewrite_errors(entries@),
            first_error(errors.take(i as int)) is None,
            out@.len() == i,
            forall|k: int| 0 <= k < entries@.len() ==> fits((#[trigger] entries@[k]).source@),
            forall|k: int| 0 <= k < i ==> rewrite_compiled(#[trigger] out@[k], entries@[k]),
        decreases entries.len() - i,
    {
        assert(errors.take(i + 1).drop_last() =~= errors.take(i as int));
        assert(fits(entries@[i as int].source@));
        let entry = &entries[i];
        match compile_pattern(
            &entry.source,
            "can not compile glob pattern for rewrite source: ",
            "can not compile regex pattern equivalent for rewrite source: ",
        ) {
            Ok(source) => {
                out.push(
                    Rewrites {
                        source,
                        destination: entry.destination.clone(),
                        redirect: entry.redirect,
                    },
                );
            },
            Err(e) => {
                proof {
                    lemma_first_error_prefix(errors, i + 1);
                }
                return Err(e);
            },
        }
        i += 1;
    }
    assert(errors.take(i as int) =~= errors);
    Ok(out)
}

/// What is wrong with each of the redirects.
pub open spec fn redirect_errors(entries: Seq<file::Redirects>) -> Seq<Option<ErrorView>> {
    Seq::new(
        entries.len(),
        |i: int|
            pattern_error(
                entries[i].source@,
                "can not compile glob pattern for redirect source: "@,
                "can not compile regex pattern equivalent for redirect source: "@,
            ),
    )
}

/// `out` is what a redirect is compiled to.
pub open spec fn redirect_compiled(out: Redirects, entry: file::Redirects) -> bool {
    &&& opt_text(out.host) == opt_text(entry.host)
    &&& glob_regex(entry.source@) is Some
    &&& regex_text(out.source) == capturing(glob_regex(entry.source@)->0)
    &&& out.destination@ == entry.destination@
    &&& out.kind == entry.kind.status()
}

/// Compiles the redirects.
pub fn compile_redirects(entries: &Vec<file::Redirects>) -> (r: Result<
    Vec<Redirects>,
    GatewayError,
>)
    requires
        forall|i: int| 0 <= i < entries@.len() ==> fits((#[trigger] entries@[i]).source@),
    ensures
        match r {
            Ok(out) => {
                &&& first_error(redirect_errors(entries@)) is None
                &&& out@.len() == entries@.len()
                &&& forall|i: int|
                    0 <= i < out@.len() ==> redirect_compiled(#[trigger] out@[i], entries@[i])
            },
            Err(e) => first_error(redirect_errors(entries@)) == Some(e@),
        },
{
    let ghost errors = redirect_errors(entries@);
    let mut out: Vec<Redirects> = Vec::new();
    let mut i: usize = 0;
    assert(errors.take(0) =~= Seq::empty());
    while i < entries.len()
        invariant
            i <= entries.len(),
            errors == redirect_errors(entries@),
            first_error(errors.take(i as int)) is None,
            out@.len() == i,
            forall|k: int| 0 <= k < entries@.len() ==> fits((#[trigger] entries@[k]).source@),
            forall|k: int| 0 <= k < i ==> redirect_compiled(#[trigger] out@[k], entries@[k]),
        decreases entries.len() - i,
    {
        assert(errors.take(i + 1).drop_last() =~= errors.take(i as int));
        assert(fits(entries@[i as int].source@));
        let entry = &entries[i];
        match compile_pattern(
            &entry.source,
            "can not compile glob pattern for redirect source: ",
            "can not compile regex pattern equivalent for redirect source: ",
        ) {
            Ok(source) => {
                let code = entry.kind.code();
                let kind = match status_from_u16(code) {
                    Ok(status) => status,
                    Err(_) => {
                        return Err(
                            error_about(
                                ErrorKind::StatusCode,
                                "invalid redirect status code: ",
                                &decimal_text(code as u64),
                            ),
                        );
                    },
                };
                out.push(
                    Redirects {
                        host: clone_opt(&entry.host),
                        source,
                        destination: entry.destination.clone(),
                        kind,
                    },
                );
            },
            Err(e) => {
                proof {
                    lemma_first_error_prefix(errors, i + 1);
                }
                return Err(e);
            },
        }
        i += 1;
    }
    assert(errors.take(i as int) =~= errors);
    Ok(out)
}

/// What is wrong with each of the virtual hosts: it names a root directory that was not found.
/// `roots` holds, for each of them, its root directory as it was found.
pub open spec fn host_errors(
    entries: Seq<file::VirtualHosts>,
    roots: Seq<Option<String>>,
) -> Seq<Option<ErrorView>> {
    Seq::new(
        entries.len(),
        |i: int|
            if entries[i].root is Some && roots[i] is None {
                Some(
                    err(
                        ErrorKind::VirtualHostRoot,
                        "root directory for virtual host was not found or inaccessible"@,
                    ),
                )
            } else {
                None
            },
    )
}

/// The virtual hosts that name a root directory, in order, each with the directory that was found.
pub open spec fn rooted_hosts(
    entries: Seq<file::VirtualHosts>,
    roots: Seq<Option<String>>,
) -> Seq<(Seq<char>, Seq<char>)>
    decreases entries.len(),
{
    if entries.len() == 0 {
        Seq::empty()
    } else {
        let before = rooted_hosts(entries.drop_last(), roots.drop_last());
        if entries.last().root is Some {
            before.push((entries.last().host@, roots.last()->0@))
        } else {
            before
        }
    }
}

/// Virtual hosts as pairs of host and root directory.
pub open spec fn host_views(hosts: Seq<VirtualHosts>) -> Seq<(Seq<char>, Seq<char>)> {
    Seq::new(hosts.len(), |i: int| (hosts[i].host@, hosts[i].root@))
}

/// Takes over the virtual hosts that name a root directory; `roots` holds, for each entry, its root
/// directory as it was found.
pub fn compile_virtual_hosts(
    entries: &Vec<file::VirtualHosts>,
    roots: &Vec<Option<String>>,
) -> (r: Result<Vec<VirtualHosts>, GatewayError>)
    requires
        roots@.len() == entries@.len(),
    ensures
        match r {
            Ok(out) => {
                &&& first_error(host_errors(entries@, roots@)) is None
                &&& host_views(out@) == rooted_hosts(entries@, roots@)
            },
            Err(e) => first_error(host_errors(entries@, roots@)) == Some(e@),
        },
{
    let ghost errors = host_errors(entries@, roots@);
    let mut out: Vec<VirtualHosts> = Vec::new();
    let mut i: usize = 0;
    assert(errors.take(0) =~= Seq::empty());
    assert(host_views(out@) =~= rooted_hosts(entries@.take(0), roots@.take(0)));
    while i < entries.len()
        invariant
            i <= entries.len(),
            roots@.len() == entries@.len(),
            errors == host_errors(entries@, roots@),
            first_error(errors.take(i as int)) is None,
            host_views(out@) == rooted_hosts(entries@.take(i as int), roots@.take(i as int)),
        decreases entries.len() - i,
    {
        assert(errors.take(i + 1).drop_last() =~= errors.take(i as int));
        assert(entries@.take(i + 1).drop_last() =~= entries@.take(i as int));
        assert(roots@.take(i + 1).drop_last() =~= roots@.take(i as int));
        if entries[i].root.is_some() {
            match &roots[i] {
                Some(root) => {
                    let ghost before = out@;
                    out.push(VirtualHosts { host: entries[i].host.clone(), root: root.clone() });
                    assert(host_views(out@) =~= host_views(before).push(
                        (entries@[i as int].host@, root@),
                    ));
                },
                None => {
                    proof {
                        lemma_first_error_prefix(errors, i + 1);
                    }
                    return Err(
                        error(
                            ErrorKind::VirtualHostRoot,
                            "root directory for virtual host was not found or inaccessible".to_owned(),
                        ),
                    );
                },
            }
        }
        i += 1;
    }
    assert(errors.take(i as int) =~= errors);
    assert(entries@.take(i as int) =~= entries@);
    assert(roots@.take(i as int) =~= roots@);
    Ok(out)
}

/// What the file system and the environment say about the paths in a configuration file.
#[derive(Debug)]
pub struct Surroundings {
    /// The home directory.
    pub home: Option<String>,
    /// Those of the CA files that exist.
    pub regular_files: Vec<String>,
    /// For each virtual host its root directory, if it names one that was found.
    pub virtual_host_roots: Vec<Option<String>>,
}

/// The patterns of a configuration file are small enough to be compiled.
pub open spec fn patterns_fit(options: file::Advanced) -> bool {
    &&& options.headers is Some ==> forall|i: int|
        0 <= i < options.headers->0@.len() ==> fits((#[trigger] options.headers->0@[i]).source@)
    &&& options.rewrites is Some ==> forall|i: int|
        0 <= i < options.rewrites->0@.len() ==> fits((#[trigger] options.rewrites->0@[i]).source@)
    &&& options.redirects is Some ==> forall|i: int|
        0 <= i < options.redirects->0@.len() ==> fits((#[trigger] options.redirects->0@[i]).source@)
}

/// For each virtual host it is known whether its root directory was found.
pub open spec fn roots_known(options: file::Advanced, around: Surroundings) -> bool {
    options.virtual_hosts is Some ==> around.virtual_host_roots@.len()
        == options.virtual_hosts->0@.len()
}

/// The first of two possible errors.
pub open spec fn earlier(a: Option<ErrorView>, b: Option<ErrorView>) -> Option<ErrorView> {
    match a {
        Some(e) => Some(e),
        None => b,
    }
}

/// What is wrong with the advanced options of a configuration file: the first fault in the headers, the
/// rewrites, the redirects, the trust settings and the virtual hosts, in this order.
pub open spec fn advanced_error(options: file::Advanced, around: Surroundings) -> Option<ErrorView> {
    let headers = match options.headers {
        Some(entries) => first_error(header_errors(entries@)),
        None => None,
    };
    let rewrites = match options.rewrites {
        Some(entries) => first_error(rewrite_errors(entries@)),
        None => None,
    };
    let redirects = match options.redirects {
        Some(entries) => first_error(redirect_errors(entries@)),
        None => None,
    };
    let tls = match options.proxy_tls {
        Some(tls) => tls_error(tls, opt_text(around.home), texts(around.regular_files@)),
        None => None,
    };
    let hosts = match options.virtual_hosts {
        Some(entries) => first_error(host_errors(entries@, around.virtual_host_roots@)),
        None => None,
    };
    earlier(headers, earlier(rewrites, earlier(redirects, earlier(tls, hosts))))
}

/// `out` are the trust settings that the options ask for.
pub open spec fn tls_compiled(
    out: ProxyTlsSettings,
    options: file::Advanced,
    around: Surroundings,
) -> bool {
    match options.proxy_tls {
        Some(tls) => texts(out.ca_files@) == ca_paths(tls, opt_text(around.home))
            && out.use_webpki_roots == !public_roots_disabled(tls),
        None => out.ca_files@.len() == 0 && out.use_webpki_roots,
    }
}

/// `out` are the settings of the proxy that the options ask for, with the defaults where they say
/// nothing; a limit of no tunnels is no limit.
pub open spec fn proxy_settings_compiled(
    out: ProxySettings,
    options: file::Advanced,
    around: Surroundings,
) -> bool {
    &&& out.pool_max_idle_per_host == (match options.proxy_pool_max_idle_per_host {
        Some(n) => n,
        None => 32,
    })
    &&& out.pool_idle_timeout_secs == (match options.proxy_pool_idle_timeout_secs {
        Some(n) => n,
        None => 90,
    })
    &&& out.proxy_first == (options.proxy_first == Some(true))
    &&& out.max_upgrade_tunnels == (if options.max_upgrade_tunnels == Some(0usize) {
        None
    } else {
        options.max_upgrade_tunnels
    })
    &&& tls_compiled(out.tls, options, around)
}

/// `out` is what the advanced options of a configuration file are compiled to; the proxy rules are
/// not compiled yet.
pub open spec fn advanced_compiled(
    out: Advanced,
    options: file::Advanced,
    around: Surroundings,
) -> bool {
    &&& match options.headers {
        Some(entries) => out.headers is Some && out.headers->0@.len() == entries@.len()
            && forall|i: int|
            0 <= i < entries@.len() ==> header_compiled(#[trigger] out.headers->0@[i], entries@[i]),
        None => out.headers is None,
    }
    &&& match options.rewrites {
        Some(entries) => out.rewrites is Some && out.rewrites->0@.len() == entries@.len()
            && forall|i: int|
            0 <= i < entries@.len() ==> rewrite_compiled(
                #[trigger] out.rewrites->0@[i],
                entries@[i],
            ),
        None => out.rewrites is None,
    }
    &&& match options.redirects {
        Some(entries) => out.redirects is Some && out.redirects->0@.len() == entries@.len()
            && forall|i: int|
            0 <= i < entries@.len() ==> redirect_compiled(
                #[trigger] out.redirects->0@[i],
                entries@[i],
            ),
        None => out.redirects is None,
    }
    &&& match options.virtual_hosts {
        Some(entries) => out.virtual_hosts is Some && host_views(out.virtual_hosts->0@)
            == rooted_hosts(entries@, around.virtual_host_roots@),
        None => out.virtual_hosts is None,
    }
    &&& out.proxies is None
    &&& out.proxy_defs == options.proxies
    &&& out.routes_bootstrap == options.routes_bootstrap
    &&& proxy_settings_compiled(out.proxy_settings, options, around)
}

/// Compiles the advanced options of a configuration file.
pub fn compile_advanced(options: file::Advanced, around: &Surroundings) -> (r: Result<
    Advanced,
    GatewayError,
>)
    requires
        patterns_fit(options),
        roots_known(options, *around),
    ensures
        match r {
            Ok(out) => advanced_error(options, *around) is None && advanced_compiled(
                out,
                options,
                *around,
            ),
            Err(e) => advanced_error(options, *around) == Some(e@),
        },
{
    let headers = match &options.headers {
        Some(entries) => match compile_headers(entries) {
            Ok(v) => Some(v),
            Err(e) => {
                return Err(e);
            },
        },
        None => None,
    };
    let rewrites = match &options.rewrites {
        Some(entries) => match compile_rewrites(entries) {
            Ok(v) => Some(v),
            Err(e) => {
                return Err(e);
            },
        },
        None => None,
    };
    let redirects = match &options.redirects {
        Some(entries) => match compile_redirects(entries) {
            Ok(v) => Some(v),
            Err(e) => {
                return Err(e);
            },
        },
        None => None,
    };
    let home = match &around.home {
        Some(h) => Some(h.as_str()),
        None => None,
    };
    let tls = match &options.proxy_tls {
        Some(tls) => match ProxyTlsSettings::from_file(tls, home, &around.regular_files) {
            Ok(t) => t,
            Err(e) => {
                return Err(e);
            },
        },
        None => ProxyTlsSettings::default(),
    };
    let proxy_settings = ProxySettings {
        pool_max_idle_per_host: match options.proxy_pool_max_idle_per_host {
            Some(n) => n,
            None => 32,
        },
        pool_idle_timeout_secs: match options.proxy_pool_idle_timeout_secs {
            Some(n) => n,
            None => 90,
        },
        proxy_first: match options.proxy_first {
            Some(first) => first,
            None => false,
        },
        max_upgrade_tunnels: match options.max_upgrade_tunnels {
            Some(n) => if n == 0 {
                None
            } else {
                Some(n)
            },
            None => None,
        },
        tls,
    };
    let virtual_hosts = match &options.virtual_hosts {
        Some(entries) => match compile_virtual_hosts(entries, &around.virtual_host_roots) {
            Ok(v) => Some(v),
            Err(e) => {
                return Err(e);
            },
        },
        None => None,
    };
    Ok(
        Advanced {
            headers,
            rewrites,
            redirects,
            virtual_hosts,
            proxies: None,
            proxy_defs: options.proxies,
            routes_bootstrap: options.routes_bootstrap,
            proxy_settings,
        },
    )
}

} // verus!
