//! Settings.

use vstd::prelude::*;

use crate::error::{err, error, ErrorKind, ErrorView, GatewayError};
use crate::settings::advanced::{
    advanced_compiled, advanced_error, compile_advanced, patterns_fit, roots_known, Surroundings,
};
use crate::settings::cli::General;
use crate::settings::file::{Proxy, RedirectsKind, RoutesBootstrap};
use crate::settings::merge::{general_error, merge_general, merged_log_level, merged_options};
use crate::text::{clone_list, clone_opt, joined, lists, opt_str, opt_text, texts};
use crate::uri::{Uri, UriView};

pub mod advanced;
pub mod cli;
pub mod file;
pub mod merge;
pub mod tls;

pub use cli::Commands;

verus! {

/// The views of a list of URIs.
pub open spec fn uri_views(v: Seq<Uri>) -> Seq<UriView> {
    Seq::new(v.len(), |i: int| v[i]@)
}

/// The texts of a list of URIs.
pub open spec fn uri_texts(v: Seq<UriView>) -> Seq<Seq<char>> {
    Seq::new(v.len(), |i: int| v[i].text)
}

/// Round-robin load balancer over upstream instances.
pub struct ProxyBalancer {
    /// Optional service name for logging.
    pub(crate) name: Option<String>,
    targets: Vec<Uri>,
    next: usize,
}

/// The counter after `position`; behind the largest one it starts over.
pub open spec fn next_position(position: usize) -> usize {
    if position == usize::MAX {
        0
    } else {
        (position + 1) as usize
    }
}

impl ProxyBalancer {
    /// There is an upstream to pick.
    #[verifier::type_invariant]
    spec fn has_target(self) -> bool {
        self.targets@.len() > 0
    }

    /// The upstreams, in the order in which they are picked.
    pub closed spec fn targets(self) -> Seq<UriView> {
        uri_views(self.targets@)
    }

    /// How many upstreams have been picked.
    pub closed spec fn position(self) -> usize {
        self.next
    }

    /// The service name.
    pub closed spec fn label(self) -> Option<Seq<char>> {
        opt_text(self.name)
    }

    /// Creates a balancer from one or more validated upstream base URIs.
    pub fn new(name: Option<String>, targets: Vec<Uri>) -> (r: Result<ProxyBalancer, GatewayError>)
        ensures
            match r {
                Ok(b) => {
                    &&& targets@.len() > 0
                    &&& b.label() == opt_text(name)
                    &&& b.targets() == uri_views(targets@)
                    &&& b.position() == 0
                },
                Err(e) => {
                    &&& targets@.len() == 0
                    &&& e@ == err(
                        ErrorKind::NoUpstream,
                        "proxy service must have at least one upstream target"@,
                    )
                },
            },
    {
        if targets.len() == 0 {
            return Err(
                error(
                    ErrorKind::NoUpstream,
                    "proxy service must have at least one upstream target".to_owned(),
                ),
            );
        }
        Ok(ProxyBalancer { name, targets, next: 0 })
    }

    /// Returns the next upstream index (round-robin).
    pub fn next_index(&mut self) -> (r: usize)
        ensures
            r as int == old(self).position() as int % old(self).targets().len() as int,
            r < final(self).targets().len(),
            final(self).position() == next_position(old(self).position()),
            final(self).targets() == old(self).targets(),
            final(self).label() == old(self).label(),
    {
        proof {
            use_type_invariant(&*self);
        }
        let index = self.next;
        self.next = index.wrapping_add(1);
        index % self.targets.len()
    }

    /// Returns the next upstream base URI (round-robin).
    pub fn next(&mut self) -> (r: &Uri)
        ensures
            r@ == old(self).targets()[old(self).position() as int % old(
                self,
            ).targets().len() as int],
            final(self).position() == next_position(old(self).position()),
            final(self).targets() == old(self).targets(),
            final(self).label() == old(self).label(),
    {
        let index = self.next_index();
        &self.targets[index]
    }

    /// Number of upstream instances.
    pub fn len(&self) -> (r: usize)
        ensures
            r == self.targets().len(),
            r > 0,
    {
        proof {
            use_type_invariant(self);
        }
        self.targets.len()
    }

    /// The service name, for logging.
    pub fn name(&self) -> (r: Option<&str>)
        ensures
            opt_str(r) == self.label(),
    {
        match &self.name {
            Some(s) => Some(s.as_str()),
            None => None,
        }
    }

    /// Comma-separated upstream URIs for logging.
    pub fn targets_display(&self) -> (r: String)
        ensures
            r@ == joined(uri_texts(self.targets()), ", "@),
    {
        let mut out = String::new();
        let mut i: usize = 0;
        let ghost all = uri_texts(self.targets());
        while i < self.targets.len()
            invariant
                i <= self.targets@.len(),
                all == uri_texts(uri_views(self.targets@)),
                out@ == joined(all.take(i as int), ", "@),
            decreases self.targets.len() - i,
        {
            assert(all.take(i + 1).drop_last() =~= all.take(i as int));
            if i > 0 {
                out.append(", ");
            }
            out.append(&self.targets[i].text);
            i += 1;
            assert(out@ =~= joined(all.take(i as int), ", "@));
        }
        assert(all.take(i as int) =~= all);
        out
    }
}

/// Precomputed URI parts for an upstream base.
#[derive(Debug)]
pub struct UpstreamUriTemplate {
    /// `scheme://authority` without trailing slash.
    pub origin: String,
    /// Base path on upstream (may be empty).
    pub base_path: String,
    /// Optional strip prefix from incoming requests.
    pub strip_prefix: Option<String>,
}

/// The mathematical view of an [`UpstreamUriTemplate`].
#[verifier::ext_equal]
pub struct TemplateView {
    pub origin: Seq<char>,
    pub base_path: Seq<char>,
    pub strip_prefix: Option<Seq<char>>,
}

impl View for UpstreamUriTemplate {
    type V = TemplateView;

    open spec fn view(&self) -> TemplateView {
        TemplateView {
            origin: self.origin@,
            base_path: self.base_path@,
            strip_prefix: opt_text(self.strip_prefix),
        }
    }
}

impl Clone for UpstreamUriTemplate {
    fn clone(&self) -> (r: UpstreamUriTemplate)
        ensures
            r == *self,
    {
        UpstreamUriTemplate {
            origin: self.origin.clone(),
            base_path: self.base_path.clone(),
            strip_prefix: clone_opt(&self.strip_prefix),
        }
    }
}

/// The template for an upstream base that has a scheme and an authority.
pub open spec fn template_of(base: UriView, strip_prefix: Option<Seq<char>>) -> TemplateView {
    TemplateView {
        origin: base.scheme->0 + "://"@ + base.authority->0,
        base_path: if base.path.len() == 0 {
            "/"@
        } else {
            base.path
        },
        strip_prefix,
    }
}

/// What is wrong with an upstream base, if anything.
pub open spec fn template_error(base: UriView) -> Option<ErrorView> {
    if base.authority is None {
        Some(err(ErrorKind::NoAuthority, "upstream URI has no authority"@))
    } else if base.scheme is None {
        Some(err(ErrorKind::NoScheme, "upstream URI has no scheme"@))
    } else {
        None
    }
}

/// Builds the URI template for an upstream.
pub fn upstream_uri_template(upstream_base: &Uri, strip_prefix: Option<&str>) -> (r: Result<
    UpstreamUriTemplate,
    GatewayError,
>)
    ensures
        match r {
            Ok(t) => {
                &&& template_error(upstream_base@) is None
                &&& t@ == template_of(upstream_base@, opt_str(strip_prefix))
            },
            Err(e) => template_error(upstream_base@) == Some(e@),
        },
{
    let authority = match &upstream_base.authority {
        Some(a) => a,
        None => {
            return Err(
                error(ErrorKind::NoAuthority, "upstream URI has no authority".to_owned()),
            );
        },
    };
    let scheme = match &upstream_base.scheme {
        Some(s) => s,
        None => {
            return Err(error(ErrorKind::NoScheme, "upstream URI has no scheme".to_owned()));
        },
    };
    let base_path = if upstream_base.path.as_str().is_empty() {
        "/".to_owned()
    } else {
        upstream_base.path.clone()
    };
    let mut origin = scheme.clone();
    origin.append("://");
    origin.append(authority);
    let strip_prefix = match strip_prefix {
        Some(p) => Some(p.to_owned()),
        None => None,
    };
    Ok(UpstreamUriTemplate { origin, base_path, strip_prefix })
}

/// Compiled reverse proxy rule.
pub struct ProxyRule {
    /// Optional host filter (without port).
    pub host: Option<String>,
    /// Path glob matcher.
    pub source: globset::GlobMatcher,
    /// Upstream instances with round-robin selection.
    pub balancer: ProxyBalancer,
    /// Optional path prefix stripped before forwarding.
    pub strip_prefix: Option<String>,
    /// Per-upstream URI templates aligned with balancer targets.
    pub uri_templates: Vec<UpstreamUriTemplate>,
}

impl ProxyRule {
    /// There is at least one upstream, every one is absolute, and there is one template for each, made
    /// of it.
    pub open spec fn wf(self) -> bool {
        &&& self.balancer.targets().len() > 0
        &&& forall|i: int|
            0 <= i < self.balancer.targets().len() ==> (
            #[trigger] self.balancer.targets()[i]).wf() && self.balancer.targets()[i].scheme is Some
        &&& self.uri_templates@.len() == self.balancer.targets().len()
        &&& forall|i: int|
            0 <= i < self.uri_templates@.len() ==> (#[trigger] self.uri_templates@[i])@
                == template_of(self.balancer.targets()[i], opt_text(self.strip_prefix))
    }
}

/// The `headers` file options.
pub struct Headers {
    /// Source pattern glob matcher
    pub source: globset::GlobMatcher,
    /// Map of custom HTTP headers
    pub headers: hyper::HeaderMap,
}

/// The `Rewrites` file options.
pub struct Rewrites {
    /// Source pattern Regex matcher
    pub source: regex_lite::Regex,
    /// A local file that must exist
    pub destination: String,
    /// Optional redirect type either 301 (Moved Permanently) or 302 (Found).
    pub redirect: Option<RedirectsKind>,
}

/// The `Redirects` file options.
pub struct Redirects {
    /// Optional host to match against an incoming URI host if specified
    pub host: Option<String>,
    /// Source pattern Regex matcher
    pub source: regex_lite::Regex,
    /// A local file that must exist
    pub destination: String,
    /// Redirection type either 301 (Moved Permanently) or 302 (Found)
    pub kind: u16,
}

/// The `VirtualHosts` file options.
#[derive(Debug)]
pub struct VirtualHosts {
    /// The value to check for in the "Host" header
    pub host: String,
    /// The root directory for this virtual host
    pub root: String,
}

/// TLS trust store for HTTPS upstream and bootstrap clients.
#[derive(Debug)]
pub struct ProxyTlsSettings {
    /// Extra CA certificates (PEM), e.g. mkcert local root.
    pub ca_files: Vec<String>,
    /// Include Mozilla/WebPKI public roots (default `true`).
    pub use_webpki_roots: bool,
}

impl Default for ProxyTlsSettings {
    /// Trusts the public roots and nothing else.
    fn default() -> (r: ProxyTlsSettings)
        ensures
            r.ca_files@.len() == 0,
            r.use_webpki_roots,
    {
        ProxyTlsSettings { ca_files: Vec::new(), use_webpki_roots: true }
    }
}

impl Clone for ProxyTlsSettings {
    fn clone(&self) -> (r: ProxyTlsSettings)
        ensures
            r.ca_files@ == self.ca_files@,
            r.use_webpki_roots == self.use_webpki_roots,
    {
        ProxyTlsSettings {
            ca_files: clone_list(&self.ca_files),
            use_webpki_roots: self.use_webpki_roots,
        }
    }
}

/// Runtime options for the reverse proxy client and handler ordering.
#[derive(Debug)]
pub struct ProxySettings {
    /// Max idle HTTP connections kept per upstream host in the proxy pool.
    pub pool_max_idle_per_host: usize,
    /// Seconds before an idle pooled upstream connection is closed.
    pub pool_idle_timeout_secs: u64,
    /// When true, evaluate proxy rules before redirects and rewrites.
    pub proxy_first: bool,
    /// `None` = unlimited concurrent protocol-upgrade tunnels.
    pub max_upgrade_tunnels: Option<usize>,
    /// TLS trust for HTTPS upstream / bootstrap.
    pub tls: ProxyTlsSettings,
}

impl ProxySettings {
    /// The two settings are the same.
    pub open spec fn same(self, other: ProxySettings) -> bool {
        &&& self.pool_max_idle_per_host == other.pool_max_idle_per_host
        &&& self.pool_idle_timeout_secs == other.pool_idle_timeout_secs
        &&& self.proxy_first == other.proxy_first
        &&& self.max_upgrade_tunnels == other.max_upgrade_tunnels
        &&& self.tls.ca_files@ == other.tls.ca_files@
        &&& self.tls.use_webpki_roots == other.tls.use_webpki_roots
    }

    /// The settings where none is given.
    pub open spec fn is_default(self) -> bool {
        &&& self.pool_max_idle_per_host == 32
        &&& self.pool_idle_timeout_secs == 90
        &&& !self.proxy_first
        &&& self.max_upgrade_tunnels is None
        &&& self.tls.ca_files@.len() == 0
        &&& self.tls.use_webpki_roots
    }
}

impl Default for ProxySettings {
    fn default() -> (r: ProxySettings)
        ensures
            r.is_default(),
    {
        ProxySettings {
            pool_max_idle_per_host: 32,
            pool_idle_timeout_secs: 90,
            proxy_first: false,
            max_upgrade_tunnels: None,
            tls: ProxyTlsSettings::default(),
        }
    }
}

impl Clone for ProxySettings {
    fn clone(&self) -> (r: ProxySettings)
        ensures
            r.same(*self),
    {
        ProxySettings {
            pool_max_idle_per_host: self.pool_max_idle_per_host,
            pool_idle_timeout_secs: self.pool_idle_timeout_secs,
            proxy_first: self.proxy_first,
            max_upgrade_tunnels: self.max_upgrade_tunnels,
            tls: self.tls.clone(),
        }
    }
}

/// The `advanced` file options.
pub struct Advanced {
    /// Headers list.
    pub headers: Option<Vec<Headers>>,
    /// Rewrites list.
    pub rewrites: Option<Vec<Rewrites>>,
    /// Redirects list.
    pub redirects: Option<Vec<Redirects>>,
    /// Name-based virtual hosting
    pub virtual_hosts: Option<Vec<VirtualHosts>>,
    /// Reverse proxy rules (compiled at server startup).
    pub proxies: Option<Vec<ProxyRule>>,
    /// Proxy rules from TOML before bootstrap merge/compile.
    pub proxy_defs: Option<Vec<Proxy>>,
    /// Optional control-plane bootstrap configuration.
    pub routes_bootstrap: Option<RoutesBootstrap>,
    /// Proxy client pool and handler ordering.
    pub proxy_settings: ProxySettings,
}

impl Default for Advanced {
    fn default() -> (r: Advanced)
        ensures
            r.headers is None,
            r.rewrites is None,
            r.redirects is None,
            r.virtual_hosts is None,
            r.proxies is None,
            r.proxy_defs is None,
            r.routes_bootstrap is None,
            r.proxy_settings.is_default(),
    {
        Advanced {
            headers: None,
            rewrites: None,
            redirects: None,
            virtual_hosts: None,
            proxies: None,
            proxy_defs: None,
            routes_bootstrap: None,
            proxy_settings: ProxySettings::default(),
        }
    }
}

/// The full server CLI and File options.
pub struct Settings {
    /// General server options
    pub general: General,
    /// Advanced server options
    pub advanced: Option<Advanced>,
}

/// A configuration file that was read.
#[derive(Debug)]
pub struct LoadedFile {
    /// Its options.
    pub settings: file::Settings,
    /// Its path.
    pub path: String,
}

/// What is wrong with the general options of a configuration file, if it has any.
pub open spec fn general_part_error(from_file: Option<file::General>) -> Option<ErrorView> {
    match from_file {
        Some(g) => general_error(g),
        None => None,
    }
}

/// What is wrong with the advanced options of a configuration file, if it has any.
pub open spec fn advanced_part_error(
    from_file: Option<file::Advanced>,
    around: Surroundings,
) -> Option<ErrorView> {
    match from_file {
        Some(a) => advanced_error(a, around),
        None => None,
    }
}

/// What is wrong with the options of a configuration file.
pub open spec fn settings_error(from_file: file::Settings, around: Surroundings) -> Option<
    ErrorView,
> {
    match general_part_error(from_file.general) {
        Some(e) => Some(e),
        None => advanced_part_error(from_file.advanced, around),
    }
}

/// `out` are the general options that the command line and a configuration file give together.
pub open spec fn general_merged(
    out: General,
    cli: General,
    from_file: Option<file::General>,
    path: String,
) -> bool {
    match from_file {
        Some(g) => out == (General { log_level: out.log_level, ..merged_options(cli, g, path) })
            && out.log_level@ == merged_log_level(cli, g),
        None => out == (General { config_file: path, ..cli }),
    }
}

/// `out` are the advanced options that a configuration file gives.
pub open spec fn advanced_resolved(
    out: Option<Advanced>,
    from_file: Option<file::Advanced>,
    around: Surroundings,
) -> bool {
    match from_file {
        Some(a) => out is Some && advanced_compiled(out->0, a, around),
        None => out is None,
    }
}

/// Makes the general options of those of the command line and those of a configuration file with the
/// given path, if it has any.
pub fn general_options(cli: General, from_file: Option<file::General>, path: String) -> (r: Result<
    General,
    GatewayError,
>)
    ensures
        match r {
            Ok(g) => general_part_error(from_file) is None && general_merged(
                g,
                cli,
                from_file,
                path,
            ),
            Err(e) => general_part_error(from_file) == Some(e@),
        },
{
    match from_file {
        Some(g) => merge_general(cli, g, path),
        None => Ok(General { config_file: path, ..cli }),
    }
}

/// Makes the advanced options of those of a configuration file, if it has any.
pub fn advanced_options(from_file: Option<file::Advanced>, around: &Surroundings) -> (r: Result<
    Option<Advanced>,
    GatewayError,
>)
    requires
        from_file is Some ==> patterns_fit(from_file->0) && roots_known(from_file->0, *around),
    ensures
        match r {
            Ok(a) => advanced_part_error(from_file, *around) is None && advanced_resolved(
                a,
                from_file,
                *around,
            ),
            Err(e) => advanced_part_error(from_file, *around) == Some(e@),
        },
{
    match from_file {
        Some(a) => match compile_advanced(a, around) {
            Ok(compiled) => Ok(Some(compiled)),
            Err(e) => Err(e),
        },
        None => Ok(None),
    }
}

impl Settings {
    /// Makes the server settings of the options of the command line and those of a configuration
    /// file, if one was found.
    pub fn parse_from(
        cli: General,
        loaded: Option<LoadedFile>,
        around: &Surroundings,
    ) -> (r: Result<Settings, GatewayError>)
        requires
            loaded is Some && loaded->0.settings.advanced is Some ==> patterns_fit(
                loaded->0.settings.advanced->0,
            ) && roots_known(loaded->0.settings.advanced->0, *around),
        ensures
            match loaded {
                None => r matches Ok(s) && s.general == cli && s.advanced is None,
                Some(file) => match r {
                    Ok(s) => {
                        &&& settings_error(file.settings, *around) is None
                        &&& general_merged(s.general, cli, file.settings.general, file.path)
                        &&& advanced_resolved(s.advanced, file.settings.advanced, *around)
                    },
                    Err(e) => settings_error(file.settings, *around) == Some(e@),
                },
            },
    {
        let LoadedFile { settings: from_file, path } = match loaded {
            Some(file) => file,
            None => {
                return Ok(Settings { general: cli, advanced: None });
            },
        };
        let general = match general_options(cli, from_file.general, path) {
            Ok(g) => g,
            Err(e) => {
                return Err(e);
            },
        };
        match advanced_options(from_file.advanced, around) {
            Ok(advanced) => Ok(Settings { general, advanced }),
            Err(e) => Err(e),
        }
    }
}

/// The configuration file that is used, and what is to be said about its name.
#[derive(Debug)]
pub struct ConfigFile {
    /// Its path.
    pub path: String,
    /// A warning, where the name is deprecated.
    pub warning: Option<String>,
}

/// The configuration file that is used where the given files exist: the first that does of those with
/// a default name, or else the one that was asked for.
pub open spec fn chosen_config(existing: Seq<Seq<char>>, asked: Seq<char>) -> Seq<char> {
    if existing.contains("./weavegate.toml"@) {
        "./weavegate.toml"@
    } else if existing.contains("./sws.toml"@) {
        "./sws.toml"@
    } else if existing.contains("./edgegate.toml"@) {
        "./edgegate.toml"@
    } else if existing.contains("./config.toml"@) {
        "./config.toml"@
    } else {
        asked
    }
}

/// The warning about a deprecated name.
pub open spec fn deprecation(name: Seq<char>) -> Seq<char> {
    "Deprecated: '"@ + name + "' found, rename it to 'weavegate.toml' for future releases"@
}

/// The warning about the configuration file that is used.
pub open spec fn config_warning(existing: Seq<Seq<char>>) -> Option<Seq<char>> {
    if existing.contains("./weavegate.toml"@) {
        None
    } else if existing.contains("./sws.toml"@) {
        Some(deprecation("sws.toml"@))
    } else if existing.contains("./edgegate.toml"@) {
        Some(deprecation("edgegate.toml"@))
    } else if existing.contains("./config.toml"@) {
        Some(deprecation("config.toml"@))
    } else {
        None
    }
}

fn deprecated(path: &str, name: &str) -> (r: ConfigFile)
    ensures
        r.path@ == path@,
        opt_text(r.warning) == Some(deprecation(name@)),
{
    let mut warning = "Deprecated: '".to_owned();
    warning.append(name);
    warning.append("' found, rename it to 'weavegate.toml' for future releases");
    ConfigFile { path: path.to_owned(), warning: Some(warning) }
}

/// The names under which a configuration file is looked for, in order.
pub fn default_config_files() -> (r: Vec<String>)
    ensures
        texts(r@) == seq![
            "./weavegate.toml"@,
            "./sws.toml"@,
            "./edgegate.toml"@,
            "./config.toml"@,
        ],
{
    let mut names: Vec<String> = Vec::new();
    names.push("./weavegate.toml".to_owned());
    names.push("./sws.toml".to_owned());
    names.push("./edgegate.toml".to_owned());
    names.push("./config.toml".to_owned());
    assert(texts(names@) =~= seq![
        "./weavegate.toml"@,
        "./sws.toml"@,
        "./edgegate.toml"@,
        "./config.toml"@,
    ]);
    names
}

/// Chooses the configuration file, given which of those with a default name exist.
pub fn choose_config_file(existing: &Vec<String>, asked: &str) -> (r: ConfigFile)
    ensures
        r.path@ == chosen_config(texts(existing@), asked@),
        opt_text(r.warning) == config_warning(texts(existing@)),
{
    if lists(existing, "./weavegate.toml") {
        ConfigFile { path: "./weavegate.toml".to_owned(), warning: None }
    } else if lists(existing, "./sws.toml") {
        deprecated("./sws.toml", "sws.toml")
    } else if lists(existing, "./edgegate.toml") {
        deprecated("./edgegate.toml", "edgegate.toml")
    } else if lists(existing, "./config.toml") {
        deprecated("./config.toml", "config.toml")
    } else {
        ConfigFile { path: asked.to_owned(), warning: None }
    }
}

} // verus!
