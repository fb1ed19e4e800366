//! Which rule a request is for.

use vstd::prelude::*;
use vstd::utf8::encode_utf8;

use crate::error::{ErrorKind, ErrorView};
use crate::glob::{fits, glob_paths, matched_paths};
use crate::headers::Contents;
use crate::laws::text::{law_first_error, law_occurrences, law_split_last, law_visible_text};
use crate::proxy::{
    active_rules, all_defs, awaits_routes, compiled_from, file_defs, first_match, host_of_request,
    no_match, settled,
};
use crate::proxy_compile::{
    compiled, entry_error, entry_errors, target_error, target_errors, target_urls, targets_error,
    upstreams,
};
use crate::proxy_sort::{
    law_ranked_is_sorted, law_ranked_is_stable, more_specific, ranked, specificity,
};
use crate::settings::file::{Proxy, ProxyView};
use crate::settings::{Advanced, ProxyRule};
use crate::text::{decimal, is_port, trimmed, visible_text};
use crate::uri::{parsed_uri, UriView};

verus! {

/// The host of a request is that of its URI, where the URI has an authority. Otherwise it is what the
/// first `Host` header says, as far as that is readable: without a colon all of it, and before the last
/// colon what stands there, where a port number follows, or else all of it again. There is no host only
/// where there is no readable `Host` header either.
pub proof fn law_request_host(uri: UriView, headers: Contents, value: Seq<char>)
    ensures
        uri.authority is Some ==> host_of_request(uri, headers) == uri.host,
        uri.authority is None && !headers.contains_key("host"@) ==> host_of_request(uri, headers)
            is None,
        uri.authority is None && headers.contains_key("host"@) ==> {
            let bytes = headers["host"@][0].bytes;
            &&& host_of_request(uri, headers) is None <==> exists|i: int|
                0 <= i < bytes.len() && !(32 <= #[trigger] bytes[i] <= 126 || bytes[i] == 9)
            &&& host_of_request(uri, headers) is Some && value.len() == bytes.len() && (forall|i: int|
                0 <= i < value.len() ==> (#[trigger] value[i]) as int == bytes[i] as int) ==> {
                &&& !value.contains(':') ==> host_of_request(uri, headers) == Some(value)
                &&& forall|name: Seq<char>, port: Seq<char>|
                    value == #[trigger] (name.push(':') + port) && !port.contains(':')
                        ==> host_of_request(uri, headers) == Some(
                        if is_port(port) {
                            name
                        } else {
                            value
                        },
                    )
            }
        },
{
    if uri.authority is None && headers.contains_key("host"@) {
        let bytes = headers["host"@][0].bytes;
        law_visible_text(bytes);
        if visible_text(bytes) is Some && value.len() == bytes.len() && (forall|i: int|
            0 <= i < value.len() ==> (#[trigger] value[i]) as int == bytes[i] as int) {
            assert(visible_text(bytes)->0 =~= value);
            law_split_last(value, ':', value, value);
            assert forall|name: Seq<char>, port: Seq<char>|
                value == #[trigger] (name.push(':') + port) && !port.contains(':') implies
                host_of_request(uri, headers) == Some(
                if is_port(port) {
                    name
                } else {
                    value
                },
            ) by {
                law_split_last(value, ':', name, port);
            }
        }
    }
}

/// The rule that is found is one that the request is for, by its host, where the rule names one, and by
/// its path, and no rule before it is. None is found exactly where no rule is, or the request has no
/// host.
pub proof fn law_found_rule(rules: Seq<ProxyRule>, host: Option<Seq<char>>, path: Seq<char>)
    ensures
        host is Some ==> forall|i: int| #[trigger]
            first_match(rules, host->0, path, i) <==> {
                &&& 0 <= i < rules.len()
                &&& rules[i].host is Some ==> rules[i].host->0@ == host->0
                &&& matched_paths(rules[i].source).contains(path)
                &&& forall|j: int|
                    0 <= j < i ==> !(((#[trigger] rules[j]).host is Some ==> rules[j].host->0@
                        == host->0) && matched_paths(rules[j].source).contains(path))
            },
        no_match(rules, host, path) <==> host is None || forall|j: int|
            0 <= j < rules.len() ==> !(((#[trigger] rules[j]).host is Some ==> rules[j].host->0@
                == host->0) && matched_paths(rules[j].source).contains(path)),
{
}

/// The rules that requests are matched against are those of the advanced options.
pub proof fn law_active_rules(advanced: Option<Advanced>)
    ensures
        advanced is Some && advanced->0.proxies is Some ==> active_rules(advanced)
            == advanced->0.proxies->0@,
        advanced is None || advanced->0.proxies is None ==> active_rules(advanced).len() == 0,
{
}

/// How specific a pattern is, is said by its length in bytes and, for equally long ones, by the number
/// of `*` in it: the longer one, or else the one with fewer, comes first.
pub proof fn law_specificity(a: Seq<char>, b: Seq<char>)
    ensures
        more_specific(specificity(a), specificity(b)) <==> encode_utf8(a).len() > encode_utf8(
            b,
        ).len() || encode_utf8(a).len() == encode_utf8(b).len() && a.filter(
            |c: char| c == '*',
        ).len() < b.filter(|c: char| c == '*').len(),
{
    law_occurrences(a, '*');
    law_occurrences(b, '*');
}

/// The definitions are ranked from long patterns to short ones, equally long ones from few `*` to many,
/// and those that are alike in both keep their order; none is dropped and none is added.
pub proof fn law_ranking(defs: Seq<ProxyView>, bytes: nat, stars: nat)
    ensures
        ranked(defs).to_multiset() == defs.to_multiset(),
        forall|i: int, j: int|
            0 <= i < j < ranked(defs).len() ==> encode_utf8((#[trigger] ranked(defs)[i]).source).len()
                > encode_utf8((#[trigger] ranked(defs)[j]).source).len() || encode_utf8(
                ranked(defs)[i].source,
            ).len() == encode_utf8(ranked(defs)[j].source).len() && ranked(defs)[i].source.filter(
                |c: char| c == '*',
            ).len() <= ranked(defs)[j].source.filter(|c: char| c == '*').len(),
        ranked(defs).filter(
            |d: ProxyView|
                encode_utf8(d.source).len() == bytes && d.source.filter(|c: char| c == '*').len()
                    == stars,
        ) == defs.filter(
            |d: ProxyView|
                encode_utf8(d.source).len() == bytes && d.source.filter(|c: char| c == '*').len()
                    == stars,
        ),
{
    law_ranked_is_sorted(defs);
    law_ranked_is_stable(defs, (bytes, stars));
    let out = ranked(defs);
    assert forall|i: int, j: int| 0 <= i < j < out.len() implies encode_utf8(
        (#[trigger] out[i]).source,
    ).len() > encode_utf8((#[trigger] out[j]).source).len() || encode_utf8(out[i].source).len()
        == encode_utf8(out[j].source).len() && out[i].source.filter(|c: char| c == '*').len()
        <= out[j].source.filter(|c: char| c == '*').len() by {
        law_specificity(out[j].source, out[i].source);
    }
    let spelled = |d: ProxyView|
        encode_utf8(d.source).len() == bytes && d.source.filter(|c: char| c == '*').len() == stars;
    let keyed = |d: ProxyView| specificity(d.source) == (bytes, stars);
    assert forall|d: ProxyView| #[trigger] spelled(d) == keyed(d) by {
        law_occurrences(d.source, '*');
    }
    assert(spelled =~= keyed);
}

/// All definitions are compiled: those of the configuration file, and behind them those that were
/// fetched, where routes are fetched at all.
pub proof fn law_all_defs(advanced: Advanced, remote: Option<Vec<Proxy>>)
    ensures
        ({
            let own: nat = match advanced.proxy_defs {
                Some(defs) => defs@.len(),
                None => 0,
            };
            let more: nat = if advanced.routes_bootstrap is Some && remote is Some {
                remote->0@.len()
            } else {
                0
            };
            &&& all_defs(advanced, remote).len() == own + more
            &&& forall|i: int|
                0 <= i < own ==> #[trigger] all_defs(advanced, remote)[i]
                    == advanced.proxy_defs->0@[i]@
            &&& forall|i: int|
                own <= i < own + more ==> #[trigger] all_defs(advanced, remote)[i]
                    == remote->0@[i - own]@
        }),
{
}

/// There is one rule for each definition, in the order in which they are ranked.
pub proof fn law_resolved_rules(rules: Seq<ProxyRule>, defs: Seq<ProxyView>)
    requires
        compiled_from(rules, defs),
    ensures
        rules.len() == defs.len(),
        forall|i: int|
            0 <= i < rules.len() ==> {
                let def = ranked(defs)[i];
                &&& match (#[trigger] rules[i]).host {
                    Some(h) => def.host == Some(h@),
                    None => def.host is None,
                }
                &&& glob_paths(def.source) == Some(matched_paths(rules[i].source))
                &&& compiled(rules[i], def)
            },
{
    law_ranked_is_sorted(defs);
    assert forall|i: int| 0 <= i < rules.len() implies {
        let def = ranked(defs)[i];
        &&& match (#[trigger] rules[i]).host {
            Some(h) => def.host == Some(h@),
            None => def.host is None,
        }
        &&& glob_paths(def.source) == Some(matched_paths(rules[i].source))
        &&& compiled(rules[i], def)
    } by {
        assert(compiled(rules[i], ranked(defs)[i]));
    }
}

/// A rule has the host, the pattern, the prefix and the name of its definition, and starts with the
/// first upstream. The one `target` is its upstream, or else all of `targets` are, in their order, each
/// read without the white space around it. For each upstream there is a template with its scheme and
/// authority, its path and the prefix of the definition.
pub proof fn law_compiled_rule(rule: ProxyRule, def: ProxyView, k: int)
    requires
        compiled(rule, def),
        entry_error(def) is None,
    ensures
        match rule.host {
            Some(h) => def.host == Some(h@),
            None => def.host is None,
        },
        match rule.strip_prefix {
            Some(p) => def.strip_prefix == Some(p@),
            None => def.strip_prefix is None,
        },
        glob_paths(def.source) == Some(matched_paths(rule.source)),
        rule.balancer.label() == def.name,
        rule.balancer.position() == 0,
        def.target is Some && trimmed(def.target->0).len() > 0 ==> rule.balancer.targets().len() == 1
            && parsed_uri(trimmed(def.target->0)) == Some(rule.balancer.targets()[0]),
        def.target is None || trimmed(def.target->0).len() == 0 ==> {
            &&& def.targets is Some
            &&& rule.balancer.targets().len() == def.targets->0.len()
            &&& forall|i: int|
                0 <= i < def.targets->0.len() ==> parsed_uri(trimmed(#[trigger] def.targets->0[i]))
                    == Some(rule.balancer.targets()[i])
        },
        rule.uri_templates@.len() == rule.balancer.targets().len(),
        0 <= k < rule.uri_templates@.len() ==> {
            let template = rule.uri_templates@[k]@;
            let target = rule.balancer.targets()[k];
            &&& target.scheme is Some
            &&& target.authority is Some
            &&& template.origin == target.scheme->0 + "://"@ + target.authority->0
            &&& template.base_path == target.path
            &&& template.strip_prefix == def.strip_prefix
        },
{
    law_first_error(target_errors(def));
    let urls = target_urls(def);
    assert forall|i: int| 0 <= i < urls.len() implies parsed_uri(trimmed(#[trigger] urls[i])) is Some
        && parsed_uri(trimmed(urls[i])) == Some(upstreams(def)[i]) by {
        assert(target_errors(def)[i] is None);
    }
    assert(urls.len() > 0);
    assert(parsed_uri(trimmed(urls[0])) is Some);
    if 0 <= k < rule.uri_templates@.len() {
        assert(rule.balancer.targets()[k].wf());
        assert(rule.uri_templates@[k]@ == crate::settings::template_of(
            rule.balancer.targets()[k],
            crate::text::opt_text(rule.strip_prefix),
        ));
    }
}

/// A definition is accepted exactly where its source is a glob, its prefix, if it has one, starts with a
/// slash, and it has either a `target` that is more than white space or at least one of `targets`, but
/// not both, and every one of them is a URI with a scheme and an authority once the white space around
/// it is removed.
pub proof fn law_accepted_definition(def: ProxyView)
    ensures
        ({
            let one = def.target is Some && trimmed(def.target->0).len() > 0;
            let list = def.targets is Some && def.targets->0.len() > 0;
            let sound = |url: Seq<char>|
                parsed_uri(trimmed(url)) is Some && parsed_uri(trimmed(url))->0.scheme is Some
                    && parsed_uri(trimmed(url))->0.authority is Some;
            &&& entry_error(def) is None <==> {
                &&& glob_paths(def.source) is Some
                &&& def.strip_prefix is Some ==> def.strip_prefix->0.len() > 0
                    && def.strip_prefix->0[0] == '/'
                &&& one != list
                &&& one ==> sound(def.target->0)
                &&& list ==> forall|i: int|
                    0 <= i < def.targets->0.len() ==> sound(#[trigger] def.targets->0[i])
            }
            &&& entry_error(def) is Some ==> entry_error(def)->0.kind == (if glob_paths(def.source)
                is None {
                ErrorKind::GlobPattern
            } else if def.strip_prefix is Some && (def.strip_prefix->0.len() == 0
                || def.strip_prefix->0[0] != '/') {
                ErrorKind::StripPrefix
            } else if one && list {
                ErrorKind::TargetConflict
            } else if !one && !list {
                ErrorKind::TargetMissing
            } else {
                entry_error(def)->0.kind
            })
        }),
{
    let errors = target_errors(def);
    law_first_error(errors);
    let one = def.target is Some && trimmed(def.target->0).len() > 0;
    let list = def.targets is Some && def.targets->0.len() > 0;
    let sound = |url: Seq<char>|
        parsed_uri(trimmed(url)) is Some && parsed_uri(trimmed(url))->0.scheme is Some
            && parsed_uri(trimmed(url))->0.authority is Some;
    assert forall|i: int| 0 <= i < errors.len() implies (#[trigger] errors[i] is None <==> sound(
        target_urls(def)[i],
    )) by {}
    if one && !list {
        assert(target_urls(def) =~= seq![def.target->0]);
        assert(errors.len() == 1);
        assert(errors[0] is None <==> sound(def.target->0));
    }
    if list && !one {
        assert(target_urls(def) == def.targets->0);
        if targets_error(def) is None {
            assert forall|i: int| 0 <= i < def.targets->0.len() implies sound(
                #[trigger] def.targets->0[i],
            ) by {
                assert(errors[i] is None);
            }
        } else if forall|i: int|
            0 <= i < def.targets->0.len() ==> sound(#[trigger] def.targets->0[i]) {
            assert forall|i: int| 0 <= i < errors.len() implies #[trigger] errors[i] is None by {
                assert(sound(def.targets->0[i]));
            }
        }
    }
}

/// The first definition that is not accepted decides the error.
pub proof fn law_first_faulty_definition(defs: Seq<ProxyView>, n: int)
    requires
        0 <= n < defs.len(),
        entry_error(defs[n]) is Some,
        forall|i: int| 0 <= i < n ==> entry_error(#[trigger] defs[i]) is None,
    ensures
        crate::error::first_error(entry_errors(defs)) == entry_error(defs[n]),
{
    let errors = entry_errors(defs);
    law_first_error(errors);
    assert forall|j: int| 0 <= j < n implies #[trigger] errors[j] is None by {
        assert(entry_error(defs[j]) is None);
    }
    assert(errors[n] is Some);
}

/// Patterns of ordinary size can be compiled, at least those without alternations.
pub proof fn law_plain_patterns_fit(pattern: Seq<char>)
    requires
        !pattern.contains('{'),
    ensures
        fits(pattern) <==> pattern.len() <= 32768,
{
    lemma_plain_nesting(pattern, true);
    lemma_plain_nesting(pattern, false);
}

proof fn lemma_plain_nesting(pattern: Seq<char>, escapes: bool)
    requires
        !pattern.contains('{'),
    ensures
        crate::glob::nesting(pattern, escapes).deepest == 0,
        crate::glob::nesting(pattern, escapes).depth == 0,
    decreases pattern.len(),
{
    if pattern.len() > 0 {
        assert forall|i: int| 0 <= i < pattern.drop_last().len() implies pattern.drop_last()[i]
            != '{' by {
            assert(pattern[i] != '{');
        }
        assert(pattern[pattern.len() - 1] != '{');
        lemma_plain_nesting(pattern.drop_last(), escapes);
    }
}

/// A target is refused for what is wrong with it: it is no URI, it has no scheme, or it has no host. The
/// message says where it stands.
pub proof fn law_target(url: Seq<char>, context: Seq<char>, parsed: Option<UriView>)
    ensures
        target_error(url, context, parsed) is None <==> parsed is Some && parsed->0.scheme is Some
            && parsed->0.authority is Some,
        parsed is None ==> target_error(url, context, parsed) == Some(
            ErrorView {
                kind: ErrorKind::TargetUrl,
                message: "invalid proxy target URL ("@ + context + "): "@ + url,
            },
        ),
        parsed is Some && parsed->0.scheme is None ==> target_error(url, context, parsed) == Some(
            ErrorView {
                kind: ErrorKind::TargetScheme,
                message: "proxy target must include a scheme (http:// or https://) ("@ + context
                    + "): "@ + url,
            },
        ),
        parsed is Some && parsed->0.scheme is Some && parsed->0.authority is None ==> target_error(
            url,
            context,
            parsed,
        ) == Some(
            ErrorView {
                kind: ErrorKind::TargetHost,
                message: "proxy target must include a host ("@ + context + "): "@ + url,
            },
        ),
{
}

/// What is said about a definition that is refused for its source, its prefix, or the number of its
/// targets.
pub proof fn law_refused_definition(def: ProxyView)
    ensures
        ({
            let one = def.target is Some && trimmed(def.target->0).len() > 0;
            let list = def.targets is Some && def.targets->0.len() > 0;
            let bare = def.strip_prefix is Some && (def.strip_prefix->0.len() == 0
                || def.strip_prefix->0[0] != '/');
            &&& glob_paths(def.source) is None ==> entry_error(def) == Some(
                ErrorView {
                    kind: ErrorKind::GlobPattern,
                    message: "can not compile glob pattern for proxy source: "@ + def.source,
                },
            )
            &&& glob_paths(def.source) is Some && bare ==> entry_error(def) == Some(
                ErrorView {
                    kind: ErrorKind::StripPrefix,
                    message: "proxy strip-prefix must start with '/': "@ + def.strip_prefix->0,
                },
            )
            &&& one && list ==> targets_error(def) == Some(
                ErrorView {
                    kind: ErrorKind::TargetConflict,
                    message: "proxy rule '"@ + def.source
                        + "' must use either `target` or `targets`, not both"@,
                },
            )
            &&& !one && !list ==> targets_error(def) == Some(
                ErrorView {
                    kind: ErrorKind::TargetMissing,
                    message: "proxy rule '"@ + def.source + "' must define `target` or `targets`"@,
                },
            )
            &&& glob_paths(def.source) is Some && !bare ==> entry_error(def) == targets_error(def)
        }),
{
}

/// The first target that is refused decides the error. The one `target` stands under the source of the
/// definition, each of `targets` under the source and its number.
pub proof fn law_first_faulty_target(def: ProxyView, n: int)
    ensures
        def.target is Some && trimmed(def.target->0).len() > 0 && !(def.targets is Some
            && def.targets->0.len() > 0) ==> targets_error(def) == target_error(
            def.target->0,
            def.source,
            parsed_uri(trimmed(def.target->0)),
        ),
        (def.target is None || trimmed(def.target->0).len() == 0) && def.targets is Some && 0 <= n
            < def.targets->0.len() && (forall|i: int|
            0 <= i < n ==> parsed_uri(trimmed(#[trigger] def.targets->0[i])) is Some && parsed_uri(
                trimmed(def.targets->0[i]),
            )->0.scheme is Some && parsed_uri(trimmed(def.targets->0[i]))->0.authority is Some)
            && target_error(
            def.targets->0[n],
            def.source + "#"@ + decimal(n as nat),
            parsed_uri(trimmed(def.targets->0[n])),
        ) is Some ==> targets_error(def) == target_error(
            def.targets->0[n],
            def.source + "#"@ + decimal(n as nat),
            parsed_uri(trimmed(def.targets->0[n])),
        ),
{
    let errors = target_errors(def);
    law_first_error(errors);
    if def.target is Some && trimmed(def.target->0).len() > 0 && !(def.targets is Some
        && def.targets->0.len() > 0) {
        assert(errors.len() == 1);
        if errors[0] is None {
            assert forall|i: int| 0 <= i < errors.len() implies #[trigger] errors[i] is None by {}
        } else {
            assert(errors[0] is Some);
        }
    }
    if (def.target is None || trimmed(def.target->0).len() == 0) && def.targets is Some && 0 <= n
        < def.targets->0.len() && (forall|i: int|
        0 <= i < n ==> parsed_uri(trimmed(#[trigger] def.targets->0[i])) is Some && parsed_uri(
            trimmed(def.targets->0[i]),
        )->0.scheme is Some && parsed_uri(trimmed(def.targets->0[i]))->0.authority is Some)
        && target_error(
        def.targets->0[n],
        def.source + "#"@ + decimal(n as nat),
        parsed_uri(trimmed(def.targets->0[n])),
    ) is Some {
        assert forall|j: int| 0 <= j < n implies #[trigger] errors[j] is None by {
            assert(parsed_uri(trimmed(def.targets->0[j])) is Some);
        }
        assert(errors[n] is Some);
    }
}

/// There is nothing to compile exactly where there are no options, the rules have been compiled before,
/// or there is no definition. Routes are fetched exactly where the rules have not been compiled and a
/// control plane is configured.
pub proof fn law_settled(advanced: Option<Advanced>, remote: Option<Vec<Proxy>>)
    ensures
        settled(advanced, remote) <==> advanced is None || advanced->0.proxies is Some || (
        advanced->0.proxy_defs is None || advanced->0.proxy_defs->0@.len() == 0) && (
        advanced->0.routes_bootstrap is None || remote is None || remote->0@.len() == 0),
        awaits_routes(advanced) <==> advanced is Some && advanced->0.proxies is None
            && advanced->0.routes_bootstrap is Some,
        advanced is Some ==> (file_defs(advanced->0).len() > 0 <==> advanced->0.proxy_defs is Some
            && advanced->0.proxy_defs->0@.len() > 0),
{
}

/// Patterns of ordinary size can be compiled, also those with alternations, as long as there are not
/// too many of them.
pub proof fn law_patterns_fit(pattern: Seq<char>)
    requires
        pattern.len() <= 32768,
        pattern.filter(|c: char| c == '{').len() <= 80,
    ensures
        fits(pattern),
{
    lemma_nesting_bound(pattern, true);
    lemma_nesting_bound(pattern, false);
}

proof fn lemma_nesting_bound(pattern: Seq<char>, escapes: bool)
    ensures
        crate::glob::nesting(pattern, escapes).depth <= pattern.filter(|c: char| c == '{').len(),
        crate::glob::nesting(pattern, escapes).deepest <= pattern.filter(|c: char| c == '{').len(),
    decreases pattern.len(),
{
    reveal(Seq::filter);
    if pattern.len() > 0 {
        lemma_nesting_bound(pattern.drop_last(), escapes);
    }
}

} // verus!
