//! The options that a configuration file can give.

use vstd::prelude::*;

use crate::text::{clone_list, clone_opt, opt_text, texts};

verus! {

/// One reverse-proxy rule.
#[derive(Debug)]
pub struct Proxy {
    /// Service name, for logging.
    pub name: Option<String>,
    /// Host that requests must be for.
    pub host: Option<String>,
    /// Glob that request paths must match.
    pub source: String,
    /// The one upstream.
    pub target: Option<String>,
    /// The upstreams that requests are spread over.
    pub targets: Option<Vec<String>>,
    /// Path prefix that is removed before forwarding.
    pub strip_prefix: Option<String>,
}

/// The mathematical view of a [`Proxy`].
#[verifier::ext_equal]
pub struct ProxyView {
    pub name: Option<Seq<char>>,
    pub host: Option<Seq<char>>,
    pub source: Seq<char>,
    pub target: Option<Seq<char>>,
    pub targets: Option<Seq<Seq<char>>>,
    pub strip_prefix: Option<Seq<char>>,
}

/// The contents of an optional list of strings.
pub open spec fn opt_texts(o: Option<Vec<String>>) -> Option<Seq<Seq<char>>> {
    match o {
        Some(v) => Some(texts(v@)),
        None => None,
    }
}

impl View for Proxy {
    type V = ProxyView;

    open spec fn view(&self) -> ProxyView {
        ProxyView {
            name: opt_text(self.name),
            host: opt_text(self.host),
            source: self.source@,
            target: opt_text(self.target),
            targets: opt_texts(self.targets),
            strip_prefix: opt_text(self.strip_prefix),
        }
    }
}

/// The views of a list of rules.
pub open spec fn def_views(defs: Seq<Proxy>) -> Seq<ProxyView> {
    Seq::new(defs.len(), |i: int| defs[i]@)
}

impl Clone for Proxy {
    fn clone(&self) -> (r: Proxy)
        ensures
            r@ == self@,
    {
        Proxy {
            name: clone_opt(&self.name),
            host: clone_opt(&self.host),
            source: self.source.clone(),
            target: clone_opt(&self.target),
            targets: match &self.targets {
                Some(list) => Some(clone_list(list)),
                None => None,
            },
            strip_prefix: clone_opt(&self.strip_prefix),
        }
    }
}

/// Trust settings for HTTPS upstreams and the control plane.
#[derive(Debug)]
pub struct ProxyTls {
    /// A PEM file with CA certificates.
    pub ca_file: Option<String>,
    /// More PEM files with CA certificates.
    pub ca_files: Option<Vec<String>>,
    /// Trust the listed CA files only.
    pub disable_webpki_roots: Option<bool>,
}

/// What to do when the routes cannot be fetched.
#[derive(Clone, Copy, Debug, PartialEq, Eq, Structural)]
pub enum RoutesBootstrapOnFailure {
    /// Use the cached routes, or else the rules of the configuration file.
    CacheThenFile,
    /// Give up, unless there are cached routes or rules in the configuration file.
    Fail,
    /// Do not fetch; use the rules of the configuration file.
    FileOnly,
}

impl Default for RoutesBootstrapOnFailure {
    fn default() -> (r: RoutesBootstrapOnFailure)
        ensures
            r == RoutesBootstrapOnFailure::CacheThenFile,
    {
        RoutesBootstrapOnFailure::CacheThenFile
    }
}

/// Where to fetch proxy rules from at startup.
#[derive(Debug)]
pub struct RoutesBootstrap {
    /// The control-plane URL.
    pub url: String,
    /// The environment variable that holds the token.
    pub token_env: Option<String>,
    /// Seconds to wait for the answer.
    pub timeout_secs: Option<u64>,
    /// The file that keeps the last answer.
    pub cache_path: Option<String>,
    /// What to do when the routes cannot be fetched.
    pub on_failure: Option<RoutesBootstrapOnFailure>,
    /// The client profile that is sent along.
    pub client_id: Option<String>,
}

impl RoutesBootstrap {
    /// What to do when the routes cannot be fetched.
    pub open spec fn policy(self) -> RoutesBootstrapOnFailure {
        match self.on_failure {
            Some(p) => p,
            None => RoutesBootstrapOnFailure::CacheThenFile,
        }
    }

    /// What to do when the routes cannot be fetched; by default the cache is used, or else the
    /// configuration file.
    pub fn failure_policy(&self) -> (r: RoutesBootstrapOnFailure)
        ensures
            r == self.policy(),
    {
        match self.on_failure {
            Some(p) => p,
            None => RoutesBootstrapOnFailure::default(),
        }
    }
}

/// The kinds of redirection.
#[derive(Clone, Copy, Debug, PartialEq, Eq, Structural)]
pub enum RedirectsKind {
    /// 301, moved permanently.
    Permanent,
    /// 302, found.
    Temporary,
}

impl RedirectsKind {
    /// The status code of the redirection.
    pub open spec fn status(self) -> u16 {
        match self {
            RedirectsKind::Permanent => 301,
            RedirectsKind::Temporary => 302,
        }
    }

    /// The status code of the redirection.
    pub fn code(&self) -> (r: u16)
        ensures
            r == self.status(),
    {
        match self {
            RedirectsKind::Permanent => 301,
            RedirectsKind::Temporary => 302,
        }
    }
}

/// Custom headers for the paths that a glob matches.
#[derive(Debug)]
pub struct Headers {
    /// Source pattern glob.
    pub source: String,
    /// The headers to set.
    pub headers: hyper::HeaderMap,
}

/// A rewrite of the paths that a glob matches.
#[derive(Debug)]
pub struct Rewrites {
    /// Source pattern glob.
    pub source: String,
    /// A local file that must exist.
    pub destination: String,
    /// Optional redirect type.
    pub redirect: Option<RedirectsKind>,
}

/// A redirect of the paths that a glob matches.
#[derive(Debug)]
pub struct Redirects {
    /// Optional host to match against an incoming URI host if specified.
    pub host: Option<String>,
    /// Source pattern glob.
    pub source: String,
    /// Where to redirect to.
    pub destination: String,
    /// Redirection type.
    pub kind: RedirectsKind,
}

/// A virtual host with a root directory of its own.
#[derive(Debug)]
pub struct VirtualHosts {
    /// The value to check for in the "Host" header.
    pub host: String,
    /// The root directory for this virtual host.
    pub root: Option<String>,
}

/// The `advanced` options of a configuration file.
#[derive(Debug)]
pub struct Advanced {
    /// Headers list.
    pub headers: Option<Vec<Headers>>,
    /// Rewrites list.
    pub rewrites: Option<Vec<Rewrites>>,
    /// Redirects list.
    pub redirects: Option<Vec<Redirects>>,
    /// Name-based virtual hosting.
    pub virtual_hosts: Option<Vec<VirtualHosts>>,
    /// Reverse proxy rules.
    pub proxies: Option<Vec<Proxy>>,
    /// Where to fetch more proxy rules from.
    pub routes_bootstrap: Option<RoutesBootstrap>,
    /// Trust settings.
    pub proxy_tls: Option<ProxyTls>,
    /// Idle connections kept per upstream host.
    pub proxy_pool_max_idle_per_host: Option<usize>,
    /// Seconds before an idle connection is closed.
    pub proxy_pool_idle_timeout_secs: Option<u64>,
    /// Try proxy rules before redirects and rewrites.
    pub proxy_first: Option<bool>,
    /// Limit of concurrent protocol-upgrade tunnels; zero is no limit.
    pub max_upgrade_tunnels: Option<usize>,
}

/// Logging levels.
#[derive(Clone, Copy, Debug, PartialEq, Eq, Structural)]
pub enum LogLevel {
    /// Errors only.
    Error,
    /// Warnings too.
    Warn,
    /// Information too.
    Info,
    /// Details for debugging too.
    Debug,
    /// Everything.
    Trace,
}

impl LogLevel {
    /// The name of the level.
    pub open spec fn label(self) -> Seq<char> {
        match self {
            LogLevel::Error => "ERROR"@,
            LogLevel::Warn => "WARN"@,
            LogLevel::Info => "INFO"@,
            LogLevel::Debug => "DEBUG"@,
            LogLevel::Trace => "TRACE"@,
        }
    }

    /// The name of the level.
    pub fn name(&self) -> (r: &'static str)
        ensures
            r@ == self.label(),
    {
        match self {
            LogLevel::Error => "ERROR",
            LogLevel::Warn => "WARN",
            LogLevel::Info => "INFO",
            LogLevel::Debug => "DEBUG",
            LogLevel::Trace => "TRACE",
        }
    }
}

/// The `general` options of a configuration file.
#[derive(Debug)]
pub struct General {
    /// Host address.
    pub host: Option<String>,
    /// Host port.
    pub port: Option<u16>,
    /// Root directory of static files.
    pub root: Option<String>,
    /// Logging level.
    pub log_level: Option<LogLevel>,
    /// Log with ANSI escape codes.
    pub log_with_ansi: Option<bool>,
    /// Send cache control headers.
    pub cache_control_headers: Option<bool>,
    /// Compress responses.
    pub compression: Option<bool>,
    /// How hard to compress.
    pub compression_level: Option<String>,
    /// Look for pre-compressed files.
    pub compression_static: Option<bool>,
    /// HTML file for 404 errors.
    pub page404: Option<String>,
    /// HTML file for 50x errors.
    pub page50x: Option<String>,
    /// Serve HTTP/2 with TLS.
    pub http2: Option<bool>,
    /// TLS certificate file.
    pub http2_tls_cert: Option<String>,
    /// TLS private key file.
    pub http2_tls_key: Option<String>,
    /// Redirect from HTTP to HTTPS.
    pub https_redirect: Option<bool>,
    /// Host that HTTPS redirects lead to.
    pub https_redirect_host: Option<String>,
    /// Port that is redirected to HTTPS.
    pub https_redirect_from_port: Option<u16>,
    /// Hosts that are redirected to HTTPS.
    pub https_redirect_from_hosts: Option<String>,
    /// Send security headers.
    pub security_headers: Option<bool>,
    /// Allowed CORS origins.
    pub cors_allow_origins: Option<String>,
    /// Allowed CORS request headers.
    pub cors_allow_headers: Option<String>,
    /// Exposed CORS response headers.
    pub cors_expose_headers: Option<String>,
    /// List directories.
    pub directory_listing: Option<bool>,
    /// Order of directory listings.
    pub directory_listing_order: Option<u8>,
    /// Format of directory listings.
    pub directory_listing_format: Option<String>,
    /// Formats in which directories can be downloaded.
    pub directory_listing_download: Option<Vec<String>>,
    /// Credentials for basic authentication.
    pub basic_auth: Option<String>,
    /// File descriptor of an open listener.
    pub fd: Option<usize>,
    /// Worker threads per CPU.
    pub threads_multiplier: Option<usize>,
    /// Limit of blocking threads.
    pub max_blocking_threads: Option<usize>,
    /// Seconds to wait before shutdown.
    pub grace_period: Option<u8>,
    /// HTML file for missing pages.
    pub page_fallback: Option<String>,
    /// Log remote addresses.
    pub log_remote_address: Option<bool>,
    /// Log the `X-Real-IP` header.
    pub log_x_real_ip: Option<bool>,
    /// Log the `X-Forwarded-For` header.
    pub log_forwarded_for: Option<bool>,
    /// Proxies whose headers are trusted.
    pub trusted_proxies: Option<Vec<String>>,
    /// Redirect directories to a trailing slash.
    pub redirect_trailing_slash: Option<bool>,
    /// Do not serve hidden files.
    pub ignore_hidden_files: Option<bool>,
    /// Do not follow symbolic links.
    pub disable_symlinks: Option<bool>,
    /// Serve Markdown to clients that accept it.
    pub accept_markdown: Option<bool>,
    /// Character set of text files.
    pub text_charset: Option<String>,
    /// Names of index files.
    pub index_files: Option<String>,
    /// Serve a health endpoint.
    pub health: Option<bool>,
    /// Serve metrics.
    pub metrics: Option<bool>,
    /// Answer every request with the maintenance page.
    pub maintenance_mode: Option<bool>,
    /// Status code of the maintenance page.
    pub maintenance_mode_status: Option<u16>,
    /// HTML file of the maintenance page.
    pub maintenance_mode_file: Option<String>,
    /// Run as a service; of no effect but on Windows.
    pub windows_service: Option<bool>,
}

/// The options of a configuration file.
#[derive(Debug)]
pub struct Settings {
    /// General options.
    pub general: Option<General>,
    /// Advanced options.
    pub advanced: Option<Advanced>,
}

} // verus!
