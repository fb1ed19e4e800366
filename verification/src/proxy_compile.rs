//! From proxy definitions to rules that requests can be matched against.

use vstd::prelude::*;

use crate::error::{
    err, error, error_about, first_error, lemma_first_error_none, lemma_first_error_prefix,
    ErrorKind, ErrorView, GatewayError,
};
use crate::glob::{compile_glob, fits, glob_paths, matched_paths};
use crate::settings::file::{def_views, Proxy, ProxyView};
use crate::settings::{
    template_of, upstream_uri_template, uri_views, ProxyBalancer, ProxyRule, UpstreamUriTemplate,
};
use crate::text::{clone_opt, decimal, decimal_text, opt_text, starts_with_char, trim, trimmed};
use crate::uri::{parsed_uri, Uri, UriView};

verus! {

/// What is wrong with an upstream target, given what its text is parsed to; `context` says where it
/// stands.
pub open spec fn target_error(
    url: Seq<char>,
    context: Seq<char>,
    parsed: Option<UriView>,
) -> Option<ErrorView> {
    match parsed {
        None => Some(
            err(
                ErrorKind::TargetUrl,
                "invalid proxy target URL ("@ + context + "): "@ + url,
            ),
        ),
        Some(u) => if u.scheme is None {
            Some(
                err(
                    ErrorKind::TargetScheme,
                    "proxy target must include a scheme (http:// or https://) ("@ + context
                        + "): "@ + url,
                ),
            )
        } else if u.authority is None {
            Some(
                err(
                    ErrorKind::TargetHost,
                    "proxy target must include a host ("@ + context + "): "@ + url,
                ),
            )
        } else {
            None
        },
    }
}

fn target_problem(kind: ErrorKind, head: &str, url: &str, context: &str) -> (r: GatewayError)
    ensures
        r@ == err(kind, head@ + context@ + "): "@ + url@),
{
    let mut message = head.to_owned();
    message.append(context);
    message.append("): ");
    message.append(url);
    error(kind, message)
}

/// Accepts a parsed target that has a scheme and a host.
pub fn check_proxy_target(url: &str, context: &str, parsed: Option<Uri>) -> (r: Result<
    Uri,
    GatewayError,
>)
    ensures
        match r {
            Ok(u) => parsed == Some(u) && target_error(url@, context@, Some(u@)) is None,
            Err(e) => target_error(
                url@,
                context@,
                match parsed {
                    Some(u) => Some(u@),
                    None => None,
                },
            ) == Some(e@),
        },
{
    match parsed {
        None => Err(target_problem(ErrorKind::TargetUrl, "invalid proxy target URL (", url, context)),
        Some(u) => {
            if u.scheme.is_none() {
                return Err(
                    target_problem(
                        ErrorKind::TargetScheme,
                        "proxy target must include a scheme (http:// or https://) (",
                        url,
                        context,
                    ),
                );
            }
            if u.authority.is_none() {
                return Err(
                    target_problem(
                        ErrorKind::TargetHost,
                        "proxy target must include a host (",
                        url,
                        context,
                    ),
                );
            }
            Ok(u)
        },
    }
}

/// Parses the URL of an upstream target.
pub fn parse_proxy_target_url(url: &str, context: &str) -> (r: Result<Uri, GatewayError>)
    ensures
        match r {
            Ok(u) => {
                &&& parsed_uri(trimmed(url@)) == Some(u@)
                &&& target_error(url@, context@, Some(u@)) is None
                &&& u@.wf()
            },
            Err(e) => target_error(url@, context@, parsed_uri(trimmed(url@))) == Some(e@),
        },
{
    let text = trim(url);
    let parsed = Uri::parse(&text);
    check_proxy_target(url, context, parsed)
}

/// The rule has a `target` that is more than white space.
pub open spec fn has_target(def: ProxyView) -> bool {
    def.target is Some && trimmed(def.target->0).len() > 0
}

/// The rule has at least one of `targets`.
pub open spec fn has_targets(def: ProxyView) -> bool {
    def.targets is Some && def.targets->0.len() > 0
}

/// The upstream URLs of a rule.
pub open spec fn target_urls(def: ProxyView) -> Seq<Seq<char>> {
    if has_target(def) {
        seq![def.target->0]
    } else {
        def.targets->0
    }
}

/// Where the `i`-th upstream URL of a rule stands, for messages.
pub open spec fn target_context(def: ProxyView, i: int) -> Seq<char> {
    if has_target(def) {
        def.source
    } else {
        def.source + "#"@ + decimal(i as nat)
    }
}

/// What is wrong with each upstream URL of a rule.
pub open spec fn target_errors(def: ProxyView) -> Seq<Option<ErrorView>> {
    Seq::new(
        target_urls(def).len(),
        |i: int|
            target_error(
                target_urls(def)[i],
                target_context(def, i),
                parsed_uri(trimmed(target_urls(def)[i])),
            ),
    )
}

/// What is wrong with the upstreams of a rule.
pub open spec fn targets_error(def: ProxyView) -> Option<ErrorView> {
    if has_target(def) && has_targets(def) {
        Some(
            err(
                ErrorKind::TargetConflict,
                "proxy rule '"@ + def.source
                    + "' must use either `target` or `targets`, not both"@,
            ),
        )
    } else if !has_target(def) && !has_targets(def) {
        Some(
            err(
                ErrorKind::TargetMissing,
                "proxy rule '"@ + def.source + "' must define `target` or `targets`"@,
            ),
        )
    } else {
        first_error(target_errors(def))
    }
}

/// The upstreams of a rule.
pub open spec fn upstreams(def: ProxyView) -> Seq<UriView> {
    Seq::new(target_urls(def).len(), |i: int| parsed_uri(trimmed(target_urls(def)[i]))->0)
}

fn rule_problem(kind: ErrorKind, source: &str, tail: &str) -> (r: GatewayError)
    ensures
        r@ == err(kind, "proxy rule '"@ + source@ + tail@),
{
    let mut message = "proxy rule '".to_owned();
    message.append(source);
    message.append(tail);
    error(kind, message)
}

/// Parses the upstreams of a rule, which must have either `target` or `targets`.
pub fn compile_proxy_targets(entry: &Proxy) -> (r: Result<Vec<Uri>, GatewayError>)
    ensures
        match r {
            Ok(v) => {
                &&& targets_error(entry@) is None
                &&& uri_views(v@) == upstreams(entry@)
                &&& v@.len() > 0
                &&& forall|i: int|
                    0 <= i < v@.len() ==> (#[trigger] v@[i])@.wf() && v@[i]@.scheme is Some
                        && v@[i]@.authority is Some
            },
            Err(e) => targets_error(entry@) == Some(e@),
        },
{
    let has_one = match &entry.target {
        Some(t) => !trim(t).as_str().is_empty(),
        None => false,
    };
    let has_list = match &entry.targets {
        Some(ts) => ts.len() > 0,
        None => false,
    };
    if has_one && has_list {
        return Err(
            rule_problem(
                ErrorKind::TargetConflict,
                &entry.source,
                "' must use either `target` or `targets`, not both",
            ),
        );
    }
    if !has_one && !has_list {
        return Err(
            rule_problem(
                ErrorKind::TargetMissing,
                &entry.source,
                "' must define `target` or `targets`",
            ),
        );
    }
    let ghost errors = target_errors(entry@);
    let mut out: Vec<Uri> = Vec::new();
    if has_one {
        if let Some(url) = &entry.target {
            match parse_proxy_target_url(url, &entry.source) {
                Ok(u) => {
                    out.push(u);
                    proof {
                        lemma_first_error_none(errors);
                        assert(errors =~= seq![None]);
                    }
                },
                Err(e) => {
                    proof {
                        assert(errors =~= seq![Some(e@)]);
                        lemma_first_error_none(errors.drop_last());
                    }
                    return Err(e);
                },
            }
        }
    } else if let Some(list) = &entry.targets {
        let mut i: usize = 0;
        assert(errors.take(0) =~= Seq::empty());
        while i < list.len()
            invariant
                i <= list.len(),
                list.len() > 0,
                errors == target_errors(entry@),
                !has_target(entry@),
                entry.targets == Some(*list),
                first_error(errors.take(i as int)) is None,
                out@.len() == i,
                forall|k: int|
                    0 <= k < i ==> (#[trigger] out@[k])@ == upstreams(entry@)[k] && out@[k]@.wf()
                        && out@[k]@.scheme is Some && out@[k]@.authority is Some,
                has_targets(entry@),
                targets_error(entry@) == first_error(errors),
            decreases list.len() - i,
        {
            let mut context = entry.source.clone();
            context.append("#");
            context.append(&decimal_text(i as u64));
            assert(target_urls(entry@)[i as int] == list@[i as int]@);
            assert(errors.take(i + 1).drop_last() =~= errors.take(i as int));
            match parse_proxy_target_url(&list[i], &context) {
                Ok(u) => {
                    out.push(u);
                },
                Err(e) => {
                    proof {
                        lemma_first_error_prefix(errors, i + 1);
                    }
                    return Err(e);
                },
            }
            i += 1;
        }
        assert(errors.take(i as int) =~= errors);
    }
    assert(uri_views(out@) =~= upstreams(entry@));
    Ok(out)
}

/// What is wrong with a rule.
pub open spec fn entry_error(def: ProxyView) -> Option<ErrorView> {
    if glob_paths(def.source) is None {
        Some(
            err(
                ErrorKind::GlobPattern,
                "can not compile glob pattern for proxy source: "@ + def.source,
            ),
        )
    } else if def.strip_prefix is Some && !(def.strip_prefix->0.len() > 0
        && def.strip_prefix->0[0] == '/') {
        Some(
            err(
                ErrorKind::StripPrefix,
                "proxy strip-prefix must start with '/': "@ + def.strip_prefix->0,
            ),
        )
    } else {
        targets_error(def)
    }
}

/// What is wrong with each of the rules.
pub open spec fn entry_errors(defs: Seq<ProxyView>) -> Seq<Option<ErrorView>> {
    Seq::new(defs.len(), |i: int| entry_error(defs[i]))
}

/// `rule` is what `def` is compiled to: it matches the paths of the definition's glob, has its host
/// and prefix, and balances over its upstreams, starting with the first.
pub open spec fn compiled(rule: ProxyRule, def: ProxyView) -> bool {
    &&& opt_text(rule.host) == def.host
    &&& glob_paths(def.source) == Some(matched_paths(rule.source))
    &&& opt_text(rule.strip_prefix) == def.strip_prefix
    &&& rule.balancer.label() == def.name
    &&& rule.balancer.targets() == upstreams(def)
    &&& rule.balancer.position() == 0
    &&& rule.wf()
}

/// Compiles one proxy definition.
fn compile_proxy_rule(entry: &Proxy) -> (r: Result<ProxyRule, GatewayError>)
    requires
        fits(entry.source@),
    ensures
        match r {
            Ok(rule) => entry_error(entry@) is None && compiled(rule, entry@),
            Err(e) => entry_error(entry@) == Some(e@),
        },
{
    let source = match compile_glob(&entry.source) {
        Ok(m) => m,
        Err(_) => {
            return Err(
                error_about(
                    ErrorKind::GlobPattern,
                    "can not compile glob pattern for proxy source: ",
                    &entry.source,
                ),
            );
        },
    };
    if let Some(prefix) = &entry.strip_prefix {
        if !starts_with_char(prefix, '/') {
            return Err(
                error_about(
                    ErrorKind::StripPrefix,
                    "proxy strip-prefix must start with '/': ",
                    prefix,
                ),
            );
        }
    }
    let targets = match compile_proxy_targets(entry) {
        Ok(v) => v,
        Err(e) => {
            return Err(e);
        },
    };
    let mut uri_templates: Vec<UpstreamUriTemplate> = Vec::new();
    let mut i: usize = 0;
    while i < targets.len()
        invariant
            i <= targets.len(),
            uri_templates@.len() == i,
            forall|k: int|
                0 <= k < targets@.len() ==> (#[trigger] targets@[k])@.scheme is Some
                    && targets@[k]@.authority is Some,
            forall|k: int|
                0 <= k < i ==> (#[trigger] uri_templates@[k])@ == template_of(
                    targets@[k]@,
                    opt_text(entry.strip_prefix),
                ),
        decreases targets.len() - i,
    {
        let prefix = match &entry.strip_prefix {
            Some(p) => Some(p.as_str()),
            None => None,
        };
        match upstream_uri_template(&targets[i], prefix) {
            Ok(t) => {
                uri_templates.push(t);
            },
            Err(e) => {
                assert(targets@[i as int]@.scheme is Some);
                return Err(e);
            },
        }
        i += 1;
    }
    let balancer = match ProxyBalancer::new(clone_opt(&entry.name), targets) {
        Ok(b) => b,
        Err(e) => {
            return Err(e);
        },
    };
    Ok(
        ProxyRule {
            host: clone_opt(&entry.host),
            source,
            balancer,
            strip_prefix: clone_opt(&entry.strip_prefix),
            uri_templates,
        },
    )
}

/// Compiles proxy definitions into rules, in their order; the first definition that cannot be
/// compiled decides the error.
pub fn compile_proxy_rules(proxy_entries: Vec<Proxy>) -> (r: Result<Vec<ProxyRule>, GatewayError>)
    requires
        forall|i: int|
            0 <= i < proxy_entries@.len() ==> fits((#[trigger] proxy_entries@[i]).source@),
    ensures
        match r {
            Ok(rules) => {
                &&& first_error(entry_errors(def_views(proxy_entries@))) is None
                &&& rules@.len() == proxy_entries@.len()
                &&& forall|i: int|
                    0 <= i < rules@.len() ==> compiled(#[trigger] rules@[i], proxy_entries@[i]@)
                        && aligned(rules@[i])
            },
            Err(e) => first_error(entry_errors(def_views(proxy_entries@))) == Some(e@),
        },
{
    let ghost errors = entry_errors(def_views(proxy_entries@));
    let mut rules: Vec<ProxyRule> = Vec::new();
    let mut i: usize = 0;
    assert(errors.take(0) =~= Seq::empty());
    while i < proxy_entries.len()
        invariant
            i <= proxy_entries.len(),
            errors == entry_errors(def_views(proxy_entries@)),
            first_error(errors.take(i as int)) is None,
            rules@.len() == i,
            forall|k: int|
                0 <= k < proxy_entries@.len() ==> fits((#[trigger] proxy_entries@[k]).source@),
            forall|k: int| 0 <= k < i ==> compiled(#[trigger] rules@[k], proxy_entries@[k]@),
        decreases proxy_entries.len() - i,
    {
        assert(errors.take(i + 1).drop_last() =~= errors.take(i as int));
        assert(fits(proxy_entries@[i as int].source@));
        match compile_proxy_rule(&proxy_entries[i]) {
            Ok(rule) => {
                rules.push(rule);
            },
            Err(e) => {
                proof {
                    lemma_first_error_prefix(errors, i + 1);
                }
                return Err(e);
            },
        }
        i += 1;
    }
    assert(errors.take(i as int) =~= errors);
    proof {
        law_compiled_rules_are_aligned(rules@, def_views(proxy_entries@));
    }
    Ok(rules)
}

/// The templates of a rule stand beside its upstreams: there is at least one upstream and for each one
/// template, with its scheme and authority as origin, its path as base path, and the prefix of the rule.
pub open spec fn aligned(rule: ProxyRule) -> bool {
    &&& rule.balancer.targets().len() >= 1
    &&& rule.uri_templates@.len() == rule.balancer.targets().len()
    &&& forall|k: int|
        0 <= k < rule.uri_templates@.len() ==> {
            let template = (#[trigger] rule.uri_templates@[k])@;
            let target = rule.balancer.targets()[k];
            &&& target.scheme is Some
            &&& target.authority is Some
            &&& template.origin == target.scheme->0 + "://"@ + target.authority->0
            &&& template.base_path == target.path
            &&& template.strip_prefix == opt_text(rule.strip_prefix)
        }
}

/// Every compiled rule has its templates beside its upstreams.
pub proof fn law_compiled_rules_are_aligned(rules: Seq<ProxyRule>, defs: Seq<ProxyView>)
    requires
        rules.len() == defs.len(),
        forall|i: int| 0 <= i < rules.len() ==> compiled(#[trigger] rules[i], defs[i]),
    ensures
        forall|i: int| 0 <= i < rules.len() ==> aligned(#[trigger] rules[i]),
{
    assert forall|i: int| 0 <= i < rules.len() implies aligned(#[trigger] rules[i]) by {
        let rule = rules[i];
        assert(compiled(rule, defs[i]));
        assert forall|k: int| 0 <= k < rule.uri_templates@.len() implies {
            let template = (#[trigger] rule.uri_templates@[k])@;
            let target = rule.balancer.targets()[k];
            &&& target.scheme is Some
            &&& target.authority is Some
            &&& template.origin == target.scheme->0 + "://"@ + target.authority->0
            &&& template.base_path == target.path
            &&& template.strip_prefix == opt_text(rule.strip_prefix)
        } by {
            assert(rule.balancer.targets()[k].wf());
        }
    }
}

} // verus!
