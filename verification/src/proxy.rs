//! Reverse proxy.

use vstd::arithmetic::div_mod::lemma_fundamental_div_mod;
use vstd::prelude::*;
use vstd::utf8::encode_utf8;

use crate::error::{err, error, error_about, first_error, ErrorKind, ErrorView, GatewayError};
use crate::glob::{fits, glob_is_match, matched_paths};
use crate::headers::{
    header_contents, header_new, merged, no_headers, overflow_error, plain, Contents, HEADER_ROOM,
};
use crate::proxy_compile::{compile_proxy_rules, compiled, entry_errors};
use crate::proxy_headers::{
    append_forwarded_headers, asks_stream, asks_upgrade, copy_forwardable_headers,
    copy_upgrade_request_headers, end_to_end, first_text, forwardable, header_text, host_error,
    is_protocol_upgrade, is_streaming_request, lemma_names, preserve_streaming_response_headers,
    preserve_upgrade_response_headers, remove_hop_by_hop_request_headers,
    remove_hop_by_hop_response_headers, set_upstream_host, streamed, upgrade_forwardable,
    with_forwarded, with_header,
};
use crate::proxy_sort::{ranked, sort_proxy_defs_by_specificity};
use crate::settings::file::{def_views, Proxy, ProxyView};
use crate::settings::{
    next_position, template_of, upstream_uri_template, Advanced, ProxyRule, ProxySettings,
    TemplateView, UpstreamUriTemplate,
};
use crate::text::{
    ascii_lowered, clone_opt, is_port, opt_str, opt_text, port_number, rsplit_once, same_text,
    split_last, starts_with_char, strip_prefix, trim_end_char, without_prefix, without_trailing,
};
use crate::uri::{
    lemma_absolute_components, lemma_before_fragment, parsed_uri, Uri, UriView,
};

verus! {

/// What is left of path and query behind the prefix of the template, if it is there.
pub open spec fn remainder(template: TemplateView, path_and_query: Option<Seq<char>>) -> Seq<char> {
    let whole = match path_and_query {
        Some(p) => p,
        None => "/"@,
    };
    match template.strip_prefix {
        Some(prefix) => match without_prefix(whole, prefix) {
            Some(rest) => rest,
            None => whole,
        },
        None => whole,
    }
}

/// Path and query of the upstream request: what is left of those of the incoming one, behind the
/// base path of the upstream.
pub open spec fn upstream_path(
    template: TemplateView,
    path_and_query: Option<Seq<char>>,
) -> Result<Seq<char>, ErrorView> {
    let rest = remainder(template, path_and_query);
    if rest.len() > 0 && rest[0] != '/' {
        Err(err(ErrorKind::StrippedPath, "invalid path after strip-prefix: "@ + rest))
    } else {
        let path = if rest.len() == 0 {
            "/"@
        } else {
            rest
        };
        if template.base_path.len() == 0 || template.base_path == "/"@ {
            Ok(path)
        } else {
            Ok(without_trailing(template.base_path, '/') + path)
        }
    }
}

/// The text of the upstream request's URI.
pub open spec fn upstream_text(
    template: TemplateView,
    path_and_query: Option<Seq<char>>,
) -> Result<Seq<char>, ErrorView> {
    match upstream_path(template, path_and_query) {
        Ok(path) => Ok(template.origin + path),
        Err(e) => Err(e),
    }
}

/// What becomes of the text of an upstream URI: the URI that it is parsed to, or an error.
pub open spec fn upstream_result(text: Seq<char>, parsed: Option<UriView>) -> Result<
    UriView,
    ErrorView,
> {
    match parsed {
        Some(u) => Ok(u),
        None => Err(err(ErrorKind::UpstreamUri, "invalid upstream URI: "@ + text)),
    }
}

/// The URI of the upstream request.
pub open spec fn upstream_uri(
    template: TemplateView,
    path_and_query: Option<Seq<char>>,
) -> Result<UriView, ErrorView> {
    match upstream_text(template, path_and_query) {
        Ok(text) => upstream_result(text, parsed_uri(text)),
        Err(e) => Err(e),
    }
}

/// Writes the URI of the upstream request for an incoming path and query.
pub fn upstream_request_text(
    template: &UpstreamUriTemplate,
    path_and_query: Option<&str>,
) -> (r: Result<String, GatewayError>)
    ensures
        match r {
            Ok(text) => upstream_text(template@, opt_str(path_and_query)) == Ok::<
                Seq<char>,
                ErrorView,
            >(text@),
            Err(e) => upstream_text(template@, opt_str(path_and_query)) == Err::<
                Seq<char>,
                ErrorView,
            >(e@),
        },
{
    let whole = match path_and_query {
        Some(p) => p,
        None => "/",
    };
    let mut rest = match &template.strip_prefix {
        Some(prefix) => match strip_prefix(whole, prefix) {
            Some(s) => s,
            None => whole.to_owned(),
        },
        None => whole.to_owned(),
    };
    if rest.as_str().is_empty() {
        rest = "/".to_owned();
    } else if !starts_with_char(&rest, '/') {
        return Err(
            error_about(ErrorKind::StrippedPath, "invalid path after strip-prefix: ", &rest),
        );
    }
    let merged = if template.base_path.as_str().is_empty() || same_text(&template.base_path, "/") {
        rest
    } else {
        let mut base = trim_end_char(&template.base_path, '/');
        base.append(&rest);
        base
    };
    let mut full = template.origin.clone();
    full.append(&merged);
    Ok(full)
}

/// Decides what becomes of the text of an upstream URI once it has been parsed.
pub fn finish_upstream_uri(text: &str, parsed: Option<Uri>) -> (r: Result<Uri, GatewayError>)
    ensures
        match r {
            Ok(u) => parsed == Some(u),
            Err(e) => parsed is None && e@ == err(
                ErrorKind::UpstreamUri,
                "invalid upstream URI: "@ + text@,
            ),
        },
{
    match parsed {
        Some(u) => Ok(u),
        None => Err(error_about(ErrorKind::UpstreamUri, "invalid upstream URI: ", text)),
    }
}

/// Builds the upstream request URI from a precomputed template and incoming URI.
pub fn build_upstream_uri_from_template(template: &UpstreamUriTemplate, req_uri: &Uri) -> (r:
    Result<Uri, GatewayError>)
    ensures
        match r {
            Ok(u) => {
                &&& upstream_uri(template@, req_uri@.path_and_query) == Ok::<UriView, ErrorView>(u@)
                &&& u@.wf()
                &&& u@.agrees(upstream_text(template@, req_uri@.path_and_query)->Ok_0)
            },
            Err(e) => upstream_uri(template@, req_uri@.path_and_query) == Err::<UriView, ErrorView>(
                e@,
            ),
        },
{
    let path_and_query = match &req_uri.path_and_query {
        Some(p) => Some(p.as_str()),
        None => None,
    };
    match upstream_request_text(template, path_and_query) {
        Ok(text) => {
            let parsed = Uri::parse(&text);
            finish_upstream_uri(&text, parsed)
        },
        Err(e) => Err(e),
    }
}

impl UpstreamUriTemplate {
    /// Builds the upstream request URI for an incoming path-and-query.
    pub fn build(&self, req_uri: &Uri) -> (r: Result<Uri, GatewayError>)
        ensures
            match r {
                Ok(u) => {
                    &&& upstream_uri(self@, req_uri@.path_and_query) == Ok::<UriView, ErrorView>(u@)
                    &&& u@.wf()
                    &&& u@.agrees(upstream_text(self@, req_uri@.path_and_query)->Ok_0)
                },
                Err(e) => upstream_uri(self@, req_uri@.path_and_query) == Err::<UriView, ErrorView>(
                    e@,
                ),
            },
    {
        build_upstream_uri_from_template(self, req_uri)
    }
}

/// Builds the upstream request URI from a selected upstream base and incoming URI.
pub fn build_upstream_uri(
    upstream_base: &Uri,
    strip_prefix: Option<&str>,
    req_uri: &Uri,
) -> (r: Result<Uri, GatewayError>)
    requires
        upstream_base@.authority is Some,
        upstream_base@.scheme is Some,
    ensures
        match r {
            Ok(u) => {
                &&& upstream_uri(
                    template_of(upstream_base@, opt_str(strip_prefix)),
                    req_uri@.path_and_query,
                ) == Ok::<UriView, ErrorView>(u@)
                &&& u@.wf()
                &&& u@.agrees(
                    upstream_text(
                        template_of(upstream_base@, opt_str(strip_prefix)),
                        req_uri@.path_and_query,
                    )->Ok_0,
                )
            },
            Err(e) => upstream_uri(
                template_of(upstream_base@, opt_str(strip_prefix)),
                req_uri@.path_and_query,
            ) == Err::<UriView, ErrorView>(e@),
        },
{
    match upstream_uri_template(upstream_base, strip_prefix) {
        Ok(template) => build_upstream_uri_from_template(&template, req_uri),
        Err(e) => Err(e),
    }
}

/// A request that is forwarded reaches the upstream it was built for: the URI has the scheme (up to
/// the case of its letters) and the authority of the upstream base, and as path and query what is left of
/// those of the incoming request, behind the base path. It is written out as just these.
pub proof fn law_upstream_uri_reaches_base(
    base: UriView,
    strip_prefix: Option<Seq<char>>,
    req: UriView,
    uri: UriView,
)
    requires
        base.wf(),
        base.scheme is Some,
        req.wf(),
        upstream_path(template_of(base, strip_prefix), req.path_and_query) is Ok,
        uri.wf(),
        uri.agrees(upstream_text(template_of(base, strip_prefix), req.path_and_query)->Ok_0),
    ensures
        uri.scheme is Some,
        ascii_lowered(uri.scheme->0) == ascii_lowered(base.scheme->0),
        uri.authority == base.authority,
        uri.path_and_query == Some(
            upstream_path(template_of(base, strip_prefix), req.path_and_query)->Ok_0,
        ),
        uri.text == uri.scheme->0 + "://"@ + base.authority->0 + upstream_path(
            template_of(base, strip_prefix),
            req.path_and_query,
        )->Ok_0,
{
    reveal_strlit("/");
    reveal_strlit("://");
    let template = template_of(base, strip_prefix);
    let path = upstream_path(template, req.path_and_query)->Ok_0;
    let text = upstream_text(template, req.path_and_query)->Ok_0;
    let scheme = base.scheme->0;
    let authority = base.authority->0;
    assert("://"@ =~= seq![':', '/', '/']);
    assert(text =~= scheme + seq![':', '/', '/'] + authority + path);
    lemma_upstream_path_shape(template, req.path_and_query);
    lemma_absolute_components(uri, text, scheme, authority, path);
    lemma_before_fragment(path);
}

proof fn lemma_without_trailing(s: Seq<char>, c: char)
    ensures
        without_trailing(s, c).len() <= s.len(),
        without_trailing(s, c) == s.take(without_trailing(s, c).len() as int),
    decreases s.len(),
{
    if s.len() > 0 && s.last() == c {
        lemma_without_trailing(s.drop_last(), c);
        let n = without_trailing(s, c).len() as int;
        assert(s.drop_last().take(n) =~= s.take(n));
    } else {
        assert(s.take(s.len() as int) =~= s);
    }
}

proof fn lemma_upstream_path_shape(template: TemplateView, path_and_query: Option<Seq<char>>)
    requires
        upstream_path(template, path_and_query) is Ok,
        !template.base_path.contains('#'),
        template.base_path.len() == 0 || template.base_path[0] == '/',
        path_and_query is Some ==> !path_and_query->0.contains('#'),
    ensures
        upstream_path(template, path_and_query)->Ok_0.len() > 0,
        upstream_path(template, path_and_query)->Ok_0[0] == '/',
        !upstream_path(template, path_and_query)->Ok_0.contains('#'),
{
    reveal_strlit("/");
    let whole = match path_and_query {
        Some(p) => p,
        None => "/"@,
    };
    let rest = remainder(template, path_and_query);
    let base = without_trailing(template.base_path, '/');
    lemma_without_trailing(template.base_path, '/');
    assert(!rest.contains('#')) by {
        assert forall|i: int| 0 <= i < rest.len() implies rest[i] != '#' by {
            if rest != whole {
                let prefix = template.strip_prefix->0;
                assert(rest[i] == whole[prefix.len() + i]);
            }
            assert(!whole.contains('#'));
        }
    }
    assert(!base.contains('#')) by {
        assert forall|i: int| 0 <= i < base.len() implies base[i] != '#' by {
            assert(base[i] == template.base_path[i]);
        }
    }
}

/// The URI under which the rule's next upstream is asked for a path and query.
pub open spec fn rule_uri(rule: ProxyRule, path_and_query: Option<Seq<char>>) -> Result<
    UriView,
    ErrorView,
> {
    let index = rule.balancer.position() as int % rule.balancer.targets().len() as int;
    if index < rule.uri_templates@.len() {
        upstream_uri(rule.uri_templates@[index]@, path_and_query)
    } else {
        Err(err(ErrorKind::TemplateIndex, "proxy URI template index out of range"@))
    }
}

/// The upstream that is on turn.
pub open spec fn picked_target(rule: ProxyRule) -> UriView {
    rule.balancer.targets()[rule.balancer.position() as int
        % rule.balancer.targets().len() as int]
}

/// `after` is `before` once an upstream has been picked: the next one is on turn, and nothing else has
/// changed.
pub open spec fn picked_once(before: ProxyRule, after: ProxyRule) -> bool {
    &&& after.host == before.host
    &&& after.source == before.source
    &&& after.strip_prefix == before.strip_prefix
    &&& after.uri_templates == before.uri_templates
    &&& after.balancer.label() == before.balancer.label()
    &&& after.balancer.targets() == before.balancer.targets()
    &&& after.balancer.position() == next_position(before.balancer.position())
}

/// `uri` leads to the upstream of the rule that is on turn: it has its authority, its scheme up to
/// the case of letters, and as path and query what is left of those of the client's request behind
/// its base path, and it is written out as scheme, `://`, authority, path and query.
pub open spec fn reaches(rule: ProxyRule, req: UriView, uri: UriView) -> bool {
    &&& uri.authority is Some
    &&& uri.authority == picked_target(rule).authority
    &&& uri.scheme is Some
    &&& ascii_lowered(uri.scheme->0) == ascii_lowered(picked_target(rule).scheme->0)
    &&& upstream_path(
        template_of(picked_target(rule), opt_text(rule.strip_prefix)),
        req.path_and_query,
    ) == Ok::<Seq<char>, ErrorView>(uri.path_and_query->0)
    &&& uri.path_and_query is Some
    &&& uri.text == uri.scheme->0 + "://"@ + uri.authority->0 + uri.path_and_query->0
}

/// A request that a well-formed rule forwards reaches the upstream that is on turn.
pub proof fn law_request_reaches_upstream(rule: ProxyRule, req: UriView, uri: UriView)
    requires
        rule.wf(),
        req.wf(),
        rule_uri(rule, req.path_and_query) == Ok::<UriView, ErrorView>(uri),
        uri.wf(),
        uri.agrees(
            upstream_text(
                template_of(picked_target(rule), opt_text(rule.strip_prefix)),
                req.path_and_query,
            )->Ok_0,
        ),
    ensures
        reaches(rule, req, uri),
{
    let n = rule.balancer.targets().len() as int;
    let index = rule.balancer.position() as int % n;
    lemma_fundamental_div_mod(rule.balancer.position() as int, n);
    assert(0 <= index < n);
    assert(rule.uri_templates@[index]@ == template_of(
        picked_target(rule),
        opt_text(rule.strip_prefix),
    ));
    law_upstream_uri_reaches_base(
        rule.balancer.targets()[index],
        opt_text(rule.strip_prefix),
        req,
        uri,
    );
}

/// Picks the next upstream of a rule and builds the URI of the request to it.
pub fn upstream_uri_for_rule(rule: &mut ProxyRule, req_uri: &Uri) -> (r: Result<Uri, GatewayError>)
    ensures
        picked_once(*old(rule), *final(rule)),
        match r {
            Ok(u) => rule_uri(*old(rule), req_uri@.path_and_query) == Ok::<UriView, ErrorView>(u@)
                && u@.wf(),
            Err(e) => rule_uri(*old(rule), req_uri@.path_and_query) == Err::<UriView, ErrorView>(
                e@,
            ),
        },
        old(rule).wf() ==> final(rule).wf(),
        old(rule).wf() && req_uri@.wf() ==> (r matches Ok(u) ==> reaches(
            *old(rule),
            req_uri@,
            u@,
        )),
{
    let index = rule.balancer.next_index();
    if index >= rule.uri_templates.len() {
        return Err(
            error(ErrorKind::TemplateIndex, "proxy URI template index out of range".to_owned()),
        );
    }
    let r = rule.uri_templates[index].build(req_uri);
    proof {
        if let Ok(u) = &r {
            if old(rule).wf() && req_uri@.wf() {
                law_request_reaches_upstream(*old(rule), req_uri@, u@);
            }
        }
    }
    r
}

/// A host without the port behind it.
pub open spec fn without_port(host: Seq<char>) -> Seq<char> {
    match split_last(host, ':') {
        Some((name, port)) => if is_port(port) {
            name
        } else {
            host
        },
        None => host,
    }
}

/// The host that a request is for: that of its URI, or else that of its `Host` header.
pub open spec fn host_of_request(uri: UriView, headers: Contents) -> Option<Seq<char>> {
    if uri.authority is Some {
        uri.host
    } else {
        match first_text(headers, "host"@) {
            Some(value) => Some(without_port(value)),
            None => None,
        }
    }
}

/// Finds the host that a request is for.
pub fn request_host(uri: &Uri, headers: &hyper::HeaderMap) -> (r: Option<String>)
    ensures
        opt_text(r) == host_of_request(uri@, header_contents(*headers)),
{
    if uri.authority.is_some() {
        return clone_opt(&uri.host);
    }
    proof {
        lemma_names();
    }
    let value = match header_text(headers, "host") {
        Some(v) => v,
        None => {
            return None;
        },
    };
    match rsplit_once(&value, ':') {
        Some((name, port)) => if port_number(&port) {
            Some(name)
        } else {
            Some(value)
        },
        None => Some(value),
    }
}

/// The compiled rules, if there are any.
pub open spec fn active_rules(advanced: Option<Advanced>) -> Seq<ProxyRule> {
    match advanced {
        Some(a) => match a.proxies {
            Some(rules) => rules@,
            None => Seq::empty(),
        },
        None => Seq::empty(),
    }
}

/// The rule is for requests of this host and path.
pub open spec fn rule_matches(rule: ProxyRule, host: Seq<char>, path: Seq<char>) -> bool {
    &&& rule.host is Some ==> rule.host->0@ == host
    &&& matched_paths(rule.source).contains(path)
}

/// `i` is the first rule for the request.
pub open spec fn first_match(
    rules: Seq<ProxyRule>,
    host: Seq<char>,
    path: Seq<char>,
    i: int,
) -> bool {
    &&& 0 <= i < rules.len()
    &&& rule_matches(rules[i], host, path)
    &&& forall|j: int| 0 <= j < i ==> !rule_matches(#[trigger] rules[j], host, path)
}

/// No rule is for the request.
pub open spec fn no_match(rules: Seq<ProxyRule>, host: Option<Seq<char>>, path: Seq<char>) -> bool {
    host is Some ==> forall|j: int|
        0 <= j < rules.len() ==> !rule_matches(#[trigger] rules[j], host->0, path)
}

/// Finds the first rule that a request matches.
pub fn find_rule(advanced: &Option<Advanced>, uri: &Uri, headers: &hyper::HeaderMap) -> (r: Option<
    usize,
>)
    ensures
        match r {
            Some(i) => host_of_request(uri@, header_contents(*headers)) is Some && first_match(
                active_rules(*advanced),
                host_of_request(uri@, header_contents(*headers))->0,
                uri@.path,
                i as int,
            ),
            None => no_match(
                active_rules(*advanced),
                host_of_request(uri@, header_contents(*headers)),
                uri@.path,
            ),
        },
{
    let rules = match advanced {
        Some(a) => match &a.proxies {
            Some(rules) => rules,
            None => {
                return None;
            },
        },
        None => {
            return None;
        },
    };
    let host = match request_host(uri, headers) {
        Some(h) => h,
        None => {
            return None;
        },
    };
    let mut i: usize = 0;
    while i < rules.len()
        invariant
            i <= rules.len(),
            rules@ == active_rules(*advanced),
            host_of_request(uri@, header_contents(*headers)) == Some(host@),
            forall|j: int| 0 <= j < i ==> !rule_matches(#[trigger] rules@[j], host@, uri@.path),
        decreases rules.len() - i,
    {
        let for_host = match &rules[i].host {
            Some(h) => same_text(h, &host),
            None => true,
        };
        if for_host && glob_is_match(&rules[i].source, &uri.path) {
            return Some(i);
        }
        i += 1;
    }
    None
}

/// A request as it is sent to an upstream, but for method and body, which stay as they came.
pub struct UpstreamRequest {
    /// Where it goes.
    pub uri: Uri,
    /// Its headers.
    pub headers: hyper::HeaderMap,
    /// Whether a stream of events is expected.
    pub streaming: bool,
}

/// The headers of an ordinary request to an upstream.
pub open spec fn http_headers(
    src: Contents,
    authority: Seq<char>,
    scheme: Option<Seq<char>>,
    remote_ip: Option<Seq<char>>,
) -> Contents {
    end_to_end(
        with_forwarded(
            with_header(
                merged(no_headers(), src, |name: Seq<char>| forwardable(name)),
                "host"@,
                Some(plain(encode_utf8(authority))),
            ),
            src,
            scheme,
            remote_ip,
        ),
    )
}

/// The headers of a request to an upstream for another protocol.
pub open spec fn upgrade_headers(
    src: Contents,
    authority: Seq<char>,
    scheme: Option<Seq<char>>,
    remote_ip: Option<Seq<char>>,
) -> Contents {
    with_forwarded(
        with_header(
            merged(no_headers(), src, |name: Seq<char>| upgrade_forwardable(name)),
            "host"@,
            Some(plain(encode_utf8(authority))),
        ),
        src,
        scheme,
        remote_ip,
    )
}

/// A request with so many header names leaves room for those that are added on the way.
pub open spec fn leaves_room(src: Contents) -> bool {
    src.dom().len() + 3 <= HEADER_ROOM
}

/// Why a request cannot be passed on: there is no URI for it, its URI gives no `Host` header, or, where
/// it comes with more header names than there is room for, a header map overflows.
pub open spec fn refused(uri: Result<UriView, ErrorView>, src: Contents, e: ErrorView) -> bool {
    match uri {
        Err(f) => e == f,
        Ok(u) => {
            ||| host_error(u) == Some(e)
            ||| e == overflow_error() && !leaves_room(src)
        },
    }
}

proof fn lemma_room(src: Contents, keep: spec_fn(Seq<char>) -> bool)
    requires
        src.dom().finite(),
    ensures
        no_headers().dom().finite(),
        no_headers().dom().union(src.dom()) == src.dom(),
        merged(no_headers(), src, keep).dom().finite(),
        merged(no_headers(), src, keep).dom().len() <= src.dom().len(),
{
    let all = merged(no_headers(), src, keep);
    assert(no_headers().dom().union(src.dom()) =~= src.dom());
    assert(all.dom().subset_of(src.dom()));
    vstd::set_lib::lemma_len_subset(all.dom(), src.dom());
}

fn assemble_request(uri: Uri, req_uri: &Uri, req_headers: &hyper::HeaderMap, remote_ip: Option<
    &str,
>, upgrade: bool) -> (r: Result<UpstreamRequest, GatewayError>)
    ensures
        match r {
            Ok(q) => {
                &&& q.uri == uri
                &&& host_error(uri@) is None
                &&& header_contents(q.headers) == (if upgrade {
                    upgrade_headers(
                        header_contents(*req_headers),
                        uri@.authority->0,
                        req_uri@.scheme,
                        opt_str(remote_ip),
                    )
                } else {
                    http_headers(
                        header_contents(*req_headers),
                        uri@.authority->0,
                        req_uri@.scheme,
                        opt_str(remote_ip),
                    )
                })
                &&& q.streaming == asks_stream(header_contents(*req_headers))
            },
            Err(e) => refused(Ok(uri@), header_contents(*req_headers), e@),
        },
{
    let streaming = is_streaming_request(req_headers);
    let mut headers = header_new();
    let ghost src = header_contents(*req_headers);
    let copied = if upgrade {
        copy_upgrade_request_headers(req_headers, &mut headers)
    } else {
        copy_forwardable_headers(req_headers, &mut headers)
    };
    proof {
        lemma_room(src, |name: Seq<char>| forwardable(name));
        lemma_room(src, |name: Seq<char>| upgrade_forwardable(name));
    }
    match copied {
        Ok(_) => {},
        Err(e) => {
            return Err(e);
        },
    }
    match set_upstream_host(&mut headers, &uri) {
        Ok(_) => {},
        Err(e) => {
            return Err(e);
        },
    }
    let scheme = match &req_uri.scheme {
        Some(s) => Some(s.as_str()),
        None => None,
    };
    match append_forwarded_headers(&mut headers, req_headers, scheme, remote_ip) {
        Ok(_) => {},
        Err(e) => {
            return Err(e);
        },
    }
    if !upgrade {
        remove_hop_by_hop_request_headers(&mut headers);
    }
    Ok(UpstreamRequest { uri, headers, streaming })
}

/// Makes the request that is sent to the rule's next upstream for an ordinary request.
pub fn prepare_http_request(
    rule: &mut ProxyRule,
    req_uri: &Uri,
    req_headers: &hyper::HeaderMap,
    remote_ip: Option<&str>,
) -> (r: Result<UpstreamRequest, GatewayError>)
    ensures
        picked_once(*old(rule), *final(rule)),
        old(rule).wf() ==> final(rule).wf(),
        old(rule).wf() && req_uri@.wf() ==> (r matches Ok(q) ==> reaches(
            *old(rule),
            req_uri@,
            q.uri@,
        )),
        match r {
            Ok(q) => {
                &&& rule_uri(*old(rule), req_uri@.path_and_query) == Ok::<UriView, ErrorView>(
                    q.uri@,
                )
                &&& host_error(q.uri@) is None
                &&& header_contents(q.headers) == http_headers(
                    header_contents(*req_headers),
                    q.uri@.authority->0,
                    req_uri@.scheme,
                    opt_str(remote_ip),
                )
                &&& q.streaming == asks_stream(header_contents(*req_headers))
            },
            Err(e) => refused(
                rule_uri(*old(rule), req_uri@.path_and_query),
                header_contents(*req_headers),
                e@,
            ),
        },
{
    match upstream_uri_for_rule(rule, req_uri) {
        Ok(uri) => assemble_request(uri, req_uri, req_headers, remote_ip, false),
        Err(e) => Err(e),
    }
}

/// Makes the request that is sent to the rule's next upstream for a request for another protocol.
pub fn prepare_upgrade_request(
    rule: &mut ProxyRule,
    req_uri: &Uri,
    req_headers: &hyper::HeaderMap,
    remote_ip: Option<&str>,
) -> (r: Result<UpstreamRequest, GatewayError>)
    ensures
        picked_once(*old(rule), *final(rule)),
        old(rule).wf() ==> final(rule).wf(),
        old(rule).wf() && req_uri@.wf() ==> (r matches Ok(q) ==> reaches(
            *old(rule),
            req_uri@,
            q.uri@,
        )),
        match r {
            Ok(q) => {
                &&& rule_uri(*old(rule), req_uri@.path_and_query) == Ok::<UriView, ErrorView>(
                    q.uri@,
                )
                &&& host_error(q.uri@) is None
                &&& header_contents(q.headers) == upgrade_headers(
                    header_contents(*req_headers),
                    q.uri@.authority->0,
                    req_uri@.scheme,
                    opt_str(remote_ip),
                )
                &&& q.streaming == asks_stream(header_contents(*req_headers))
            },
            Err(e) => refused(
                rule_uri(*old(rule), req_uri@.path_and_query),
                header_contents(*req_headers),
                e@,
            ),
        },
{
    match upstream_uri_for_rule(rule, req_uri) {
        Ok(uri) => assemble_request(uri, req_uri, req_headers, remote_ip, true),
        Err(e) => Err(e),
    }
}

/// Takes from an upstream's response the headers that are not passed on.
pub fn finish_http_response(headers: &mut hyper::HeaderMap, streaming: bool)
    ensures
        header_contents(*final(headers)) == (if streaming {
            streamed(header_contents(*old(headers)))
        } else {
            end_to_end(header_contents(*old(headers)))
        }),
{
    if streaming {
        preserve_streaming_response_headers(headers);
    } else {
        remove_hop_by_hop_response_headers(headers);
    }
}

/// What a response to a request for another protocol leads to.
#[derive(Debug)]
pub enum UpgradeOutcome {
    /// The upstream has switched to the named protocol: the two connections are joined.
    Tunnel(String),
    /// The upstream has not: its response is passed on.
    PassThrough,
}

/// The protocol that a response switches to.
pub open spec fn upgrade_kind(headers: Contents) -> Seq<char> {
    match first_text(headers, "upgrade"@) {
        Some(kind) => kind,
        None => "unknown"@,
    }
}

/// Decides what a response to a request for another protocol leads to.
pub fn upgrade_outcome(status: u16, headers: &mut hyper::HeaderMap) -> (r: UpgradeOutcome)
    ensures
        *final(headers) == *old(headers),
        match r {
            UpgradeOutcome::Tunnel(kind) => status == 101 && kind@ == upgrade_kind(
                header_contents(*old(headers)),
            ),
            UpgradeOutcome::PassThrough => status != 101,
        },
{
    if status != 101 {
        return UpgradeOutcome::PassThrough;
    }
    preserve_upgrade_response_headers(headers);
    proof {
        lemma_names();
    }
    match header_text(headers, "upgrade") {
        Some(kind) => UpgradeOutcome::Tunnel(kind),
        None => UpgradeOutcome::Tunnel("unknown".to_owned()),
    }
}

/// The status with which a request for another protocol is turned away, if it is: where the number of
/// tunnels is limited and no permit for another one was to be had.
pub fn upgrade_refusal(limited: bool, permitted: bool) -> (r: Option<u16>)
    ensures
        r == (if limited && !permitted {
            Some(503u16)
        } else {
            None
        }),
{
    if limited && !permitted {
        Some(503)
    } else {
        None
    }
}

/// What is done with a request.
#[derive(Debug)]
pub enum ProxyStep {
    /// It is none of the proxy's.
    Pass,
    /// It is forwarded by this rule.
    Http(usize),
    /// It is forwarded by this rule, as a request for another protocol.
    Upgrade(usize),
}

/// Decides what is done with a request.
pub fn pre_process(
    advanced: &Option<Advanced>,
    has_client: bool,
    uri: &Uri,
    headers: &hyper::HeaderMap,
) -> (r: ProxyStep)
    ensures
        match r {
            ProxyStep::Pass => !has_client || no_match(
                active_rules(*advanced),
                host_of_request(uri@, header_contents(*headers)),
                uri@.path,
            ),
            ProxyStep::Http(i) => has_client && !asks_upgrade(header_contents(*headers))
                && host_of_request(uri@, header_contents(*headers)) is Some && first_match(
                active_rules(*advanced),
                host_of_request(uri@, header_contents(*headers))->0,
                uri@.path,
                i as int,
            ),
            ProxyStep::Upgrade(i) => has_client && asks_upgrade(header_contents(*headers))
                && host_of_request(uri@, header_contents(*headers)) is Some && first_match(
                active_rules(*advanced),
                host_of_request(uri@, header_contents(*headers))->0,
                uri@.path,
                i as int,
            ),
        },
{
    match find_rule(advanced, uri, headers) {
        Some(i) => {
            if !has_client {
                ProxyStep::Pass
            } else if is_protocol_upgrade(headers) {
                ProxyStep::Upgrade(i)
            } else {
                ProxyStep::Http(i)
            }
        },
        None => ProxyStep::Pass,
    }
}

/// Decides whether the proxy runs, which it does where there are rules, and with which settings.
pub fn init(advanced: &Option<Advanced>) -> (r: Option<ProxySettings>)
    ensures
        match r {
            Some(settings) => active_rules(*advanced).len() > 0 && settings.same(
                advanced->0.proxy_settings,
            ),
            None => active_rules(*advanced).len() == 0,
        },
{
    match advanced {
        Some(a) => match &a.proxies {
            Some(rules) => if rules.len() > 0 {
                Some(a.proxy_settings.clone())
            } else {
                None
            },
            None => None,
        },
        None => None,
    }
}

/// The rules have not been compiled, and some of them are to be fetched.
pub open spec fn awaits_routes(advanced: Option<Advanced>) -> bool {
    advanced is Some && advanced->0.proxies is None && advanced->0.routes_bootstrap is Some
}

/// Whether routes have to be fetched before the rules can be resolved.
pub fn needs_bootstrap(advanced: &Option<Advanced>) -> (r: bool)
    ensures
        r == awaits_routes(*advanced),
{
    match advanced {
        Some(a) => a.proxies.is_none() && a.routes_bootstrap.is_some(),
        None => false,
    }
}

/// The rules that the configuration file gives.
pub open spec fn file_defs(advanced: Advanced) -> Seq<ProxyView> {
    match advanced.proxy_defs {
        Some(defs) => def_views(defs@),
        None => Seq::empty(),
    }
}

/// Whether the configuration file gives any rules.
pub fn has_file_rules(advanced: &Option<Advanced>) -> (r: bool)
    ensures
        r == (advanced is Some && file_defs(advanced->0).len() > 0),
{
    match advanced {
        Some(a) => match &a.proxy_defs {
            Some(defs) => defs.len() > 0,
            None => false,
        },
        None => false,
    }
}

/// The rules that were fetched; none where none are asked for.
pub open spec fn fetched_defs(advanced: Advanced, remote: Option<Vec<Proxy>>) -> Seq<ProxyView> {
    match remote {
        Some(defs) => if advanced.routes_bootstrap is Some {
            def_views(defs@)
        } else {
            Seq::empty()
        },
        None => Seq::empty(),
    }
}

/// All rules to be compiled: those of the configuration file, and behind them those that were fetched.
pub open spec fn all_defs(advanced: Advanced, remote: Option<Vec<Proxy>>) -> Seq<ProxyView> {
    file_defs(advanced) + fetched_defs(advanced, remote)
}

/// `rules` are compiled from `defs`, from the most specific to the least.
pub open spec fn compiled_from(rules: Seq<ProxyRule>, defs: Seq<ProxyView>) -> bool {
    &&& rules.len() == ranked(defs).len()
    &&& forall|i: int| 0 <= i < rules.len() ==> compiled(#[trigger] rules[i], ranked(defs)[i])
}

/// The rules can be resolved without compiling anything: there are no options, they have been
/// compiled before, or there are none.
pub open spec fn settled(advanced: Option<Advanced>, remote: Option<Vec<Proxy>>) -> bool {
    advanced is None || advanced->0.proxies is Some || all_defs(advanced->0, remote).len() == 0
}

/// Merges the rules of the configuration file with those that were fetched, sorts them by specificity
/// and compiles them.
pub fn resolve_rules(advanced: &mut Option<Advanced>, remote: Option<Vec<Proxy>>) -> (r: Result<
    (),
    GatewayError,
>)
    requires
        !settled(*old(advanced), remote) ==> forall|i: int|
            0 <= i < all_defs((*old(advanced))->0, remote).len() ==> fits(
                (#[trigger] all_defs((*old(advanced))->0, remote)[i]).source,
            ),
    ensures
        settled(*old(advanced), remote) ==> r is Ok && *final(advanced) == *old(advanced),
        !settled(*old(advanced), remote) ==> match r {
            Ok(_) => {
                &&& first_error(entry_errors(ranked(all_defs((*old(advanced))->0, remote)))) is None
                &&& *final(advanced) is Some
                &&& (*final(advanced))->0.proxies is Some
                &&& compiled_from(
                    (*final(advanced))->0.proxies->0@,
                    all_defs((*old(advanced))->0, remote),
                )
                &&& (*final(advanced))->0 == (Advanced {
                    proxies: (*final(advanced))->0.proxies,
                    ..(*old(advanced))->0
                })
            },
            Err(e) => {
                &&& first_error(entry_errors(ranked(all_defs((*old(advanced))->0, remote)))) == Some(
                    e@,
                )
                &&& *final(advanced) == *old(advanced)
            },
        },
{
    let adv = match advanced {
        Some(a) => a,
        None => {
            return Ok(());
        },
    };
    if adv.proxies.is_some() {
        return Ok(());
    }
    let ghost all = all_defs(*adv, remote);
    let ghost fetched = fetched_defs(*adv, remote);
    let mut defs: Vec<Proxy> = Vec::new();
    if let Some(own) = &adv.proxy_defs {
        let mut i: usize = 0;
        while i < own.len()
            invariant
                i <= own.len(),
                defs@.len() == i,
                forall|k: int| 0 <= k < i ==> (#[trigger] defs@[k])@ == own@[k]@,
            decreases own.len() - i,
        {
            defs.push(own[i].clone());
            i += 1;
        }
    }
    assert(def_views(defs@) =~= file_defs(*adv));
    if adv.routes_bootstrap.is_some() {
        if let Some(more) = remote {
            let mut more = more;
            let ghost own = defs@;
            let ghost extra = more@;
            defs.append(&mut more);
            assert(def_views(defs@) =~= def_views(own) + def_views(extra));
        }
    }
    assert(def_views(defs@) =~= all);
    if defs.len() == 0 {
        return Ok(());
    }
    sort_proxy_defs_by_specificity(&mut defs);
    proof {
        lemma_sorting_keeps_fit(all, defs@);
    }
    match compile_proxy_rules(defs) {
        Ok(rules) => {
            adv.proxies = Some(rules);
            Ok(())
        },
        Err(e) => Err(e),
    }
}

proof fn lemma_sorting_keeps_fit(before: Seq<ProxyView>, after: Seq<Proxy>)
    requires
        before.to_multiset() == def_views(after).to_multiset(),
        forall|i: int| 0 <= i < before.len() ==> fits((#[trigger] before[i]).source),
    ensures
        forall|i: int| 0 <= i < after.len() ==> fits((#[trigger] after[i]).source@),
{
    assert forall|i: int| 0 <= i < after.len() implies fits((#[trigger] after[i]).source@) by {
        let def = after[i]@;
        assert(def_views(after)[i] == def);
        vstd::seq_lib::to_multiset_contains(def_views(after), def);
        vstd::seq_lib::to_multiset_contains(before, def);
    }
}

} // verus!
