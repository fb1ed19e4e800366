//! Where a forwarded request goes.

use vstd::prelude::*;

use crate::error::{ErrorKind, ErrorView};
use crate::laws::text::{law_prefix, law_trailing};
use crate::proxy::{
    picked_once, reaches, remainder, rule_uri, upstream_path, upstream_text, upstream_uri,
};
use crate::settings::{template_error, template_of, ProxyRule, TemplateView};
use crate::text::{ascii_lowered, opt_text};
use crate::uri::{parsed_uri, UriView};

verus! {

/// `root` is `path` without the slashes at its end.
pub open spec fn is_root_of(root: Seq<char>, path: Seq<char>) -> bool {
    &&& root.is_prefix_of(path)
    &&& forall|i: int| root.len() <= i < path.len() ==> #[trigger] path[i] == '/'
    &&& root.len() > 0 ==> root.last() != '/'
}

/// `rest` is what is left of `whole` once the prefix is taken from it; where there is no prefix, or
/// `whole` does not start with it, that is all of it.
pub open spec fn is_left(rest: Seq<char>, prefix: Option<Seq<char>>, whole: Seq<char>) -> bool {
    match prefix {
        Some(p) => whole == p + rest || !p.is_prefix_of(whole) && rest == whole,
        None => rest == whole,
    }
}

/// The URI of an upstream request is the origin of the upstream, its base path without the slashes at
/// its end, and what is left of the client's path and query once the prefix of the rule is taken from
/// it, or a slash where nothing is left. This is so with a prefix and without. A rest that does not
/// start with a slash is refused, and a request without path asks for `/`.
pub proof fn law_upstream_text(
    template: TemplateView,
    whole: Seq<char>,
    root: Seq<char>,
    rest: Seq<char>,
)
    requires
        is_root_of(root, template.base_path),
        is_left(rest, template.strip_prefix, whole),
    ensures
        rest.len() == 0 ==> upstream_text(template, Some(whole)) == Ok::<Seq<char>, ErrorView>(
            template.origin + root + seq!['/'],
        ),
        rest.len() > 0 && rest[0] == '/' ==> upstream_text(template, Some(whole)) == Ok::<
            Seq<char>,
            ErrorView,
        >(template.origin + root + rest),
        rest.len() > 0 && rest[0] != '/' ==> upstream_text(template, Some(whole)) == Err::<
            Seq<char>,
            ErrorView,
        >(
            ErrorView {
                kind: ErrorKind::StrippedPath,
                message: "invalid path after strip-prefix: "@ + rest,
            },
        ),
        upstream_text(template, None) == upstream_text(template, Some(seq!['/'])),
{
    reveal_strlit("/");
    assert("/"@ =~= seq!['/']);
    law_trailing(template.base_path, '/', root);
    if let Some(p) = template.strip_prefix {
        law_prefix(whole, p, rest);
    }
    assert(remainder(template, Some(whole)) == rest);
    let path = if rest.len() == 0 {
        seq!['/']
    } else {
        rest
    };
    if rest.len() == 0 || rest[0] == '/' {
        assert(root + path == upstream_path(template, Some(whole))->Ok_0) by {
            if template.base_path.len() == 0 || template.base_path == "/"@ {
                if root.len() > 0 {
                    assert(root[0] == template.base_path[0]);
                    assert(root.len() == 1);
                    assert(root.last() == root[0]);
                }
                assert(root + path =~= path);
            }
        }
        assert(template.origin + (root + path) =~= template.origin + root + path);
    }
}

/// The upstream that a base stands for: its scheme and authority are the origin, its path, or `/` where
/// it has none, is the base path. Only a base with both a scheme and an authority stands for one.
pub proof fn law_template(base: UriView, prefix: Option<Seq<char>>)
    ensures
        template_error(base) is None <==> base.scheme is Some && base.authority is Some,
        template_error(base) is None ==> template_of(base, prefix).origin == base.scheme->0 + "://"@
            + base.authority->0,
        base.path.len() > 0 ==> template_of(base, prefix).base_path == base.path,
        base.path.len() == 0 ==> template_of(base, prefix).base_path == "/"@,
        template_of(base, prefix).strip_prefix == prefix,
        base.authority is None ==> template_error(base) == Some(
            ErrorView {
                kind: ErrorKind::NoAuthority,
                message: "upstream URI has no authority"@,
            },
        ),
        base.authority is Some && base.scheme is None ==> template_error(base) == Some(
            ErrorView { kind: ErrorKind::NoScheme, message: "upstream URI has no scheme"@ },
        ),
{
}

/// A request to an upstream is for scheme and authority of the upstream, its path without the slashes
/// at its end, and what is left of the client's path and query.
pub proof fn law_upstream_request(
    base: UriView,
    prefix: Option<Seq<char>>,
    whole: Seq<char>,
    root: Seq<char>,
    rest: Seq<char>,
)
    requires
        base.scheme is Some,
        base.authority is Some,
        is_root_of(root, base.path),
        is_left(rest, prefix, whole),
        rest.len() == 0 || rest[0] == '/',
    ensures
        upstream_text(template_of(base, prefix), Some(whole)) == Ok::<Seq<char>, ErrorView>(
            base.scheme->0 + "://"@ + base.authority->0 + root + (if rest.len() == 0 {
                seq!['/']
            } else {
                rest
            }),
        ),
{
    reveal_strlit("/");
    let template = template_of(base, prefix);
    if base.path.len() == 0 {
        assert(root =~= Seq::empty());
        assert(root =~= template.base_path.subrange(0, 0));
    }
    law_upstream_text(template, whole, root, rest);
}

/// The text that is made for an upstream is taken as the URI that it stands for; where it stands for
/// none, the request is refused with it.
pub proof fn law_upstream_uri(template: TemplateView, pq: Option<Seq<char>>, text: Seq<char>)
    requires
        upstream_text(template, pq) == Ok::<Seq<char>, ErrorView>(text),
    ensures
        parsed_uri(text) is Some ==> upstream_uri(template, pq) == Ok::<UriView, ErrorView>(
            parsed_uri(text)->0,
        ),
        parsed_uri(text) is None ==> upstream_uri(template, pq) == Err::<UriView, ErrorView>(
            ErrorView {
                kind: ErrorKind::UpstreamUri,
                message: "invalid upstream URI: "@ + text,
            },
        ),
{
}

/// A forwarded request is for the upstream that is on turn, and asks it for its path without the
/// slashes at its end and what is left of the client's path and query.
pub proof fn law_forwarded_request(
    rule: ProxyRule,
    req: UriView,
    uri: UriView,
    target: UriView,
    whole: Seq<char>,
    root: Seq<char>,
    rest: Seq<char>,
)
    requires
        rule.wf(),
        req.wf(),
        reaches(rule, req, uri),
        target == rule.balancer.targets()[rule.balancer.position() as int
            % rule.balancer.targets().len() as int],
        req.path_and_query == Some(whole) || req.path_and_query is None && whole == seq!['/'],
        is_root_of(root, target.path),
        is_left(
            rest,
            match rule.strip_prefix {
                Some(p) => Some(p@),
                None => None,
            },
            whole,
        ),
    ensures
        rest.len() == 0 || rest[0] == '/',
        uri.authority == target.authority,
        uri.scheme is Some,
        ascii_lowered(uri.scheme->0) == ascii_lowered(target.scheme->0),
        uri.path_and_query == Some(root + (if rest.len() == 0 {
            seq!['/']
        } else {
            rest
        })),
        uri.text == uri.scheme->0 + "://"@ + target.authority->0 + root + (if rest.len() == 0 {
            seq!['/']
        } else {
            rest
        }),
{
    reveal_strlit("/");
    let prefix = opt_text(rule.strip_prefix);
    let template = template_of(target, prefix);
    let n = rule.balancer.targets().len() as int;
    vstd::arithmetic::div_mod::lemma_fundamental_div_mod(rule.balancer.position() as int, n);
    assert(rule.balancer.targets()[rule.balancer.position() as int % n].wf());
    assert(template.base_path == target.path);
    law_upstream_text(template, whole, root, rest);
    let path = root + (if rest.len() == 0 {
        seq!['/']
    } else {
        rest
    });
    assert(upstream_path(template, req.path_and_query) is Ok);
    let got = upstream_path(template, req.path_and_query)->Ok_0;
    assert(template.origin + got =~= template.origin + path);
    assert(got =~= (template.origin + got).skip(template.origin.len() as int));
    assert(path =~= (template.origin + path).skip(template.origin.len() as int));
    assert(uri.text =~= uri.scheme->0 + "://"@ + target.authority->0 + root + (if rest.len() == 0 {
        seq!['/']
    } else {
        rest
    }));
}

/// Picking an upstream moves the counter on by one, from the largest number to zero, and changes
/// nothing else; the request goes out by the template that the counter stood at.
pub proof fn law_pick(before: ProxyRule, after: ProxyRule, pq: Option<Seq<char>>, index: int)
    requires
        picked_once(before, after),
        before.balancer.targets().len() > 0,
        index == before.balancer.position() as int % before.balancer.targets().len() as int,
    ensures
        before.balancer.position() < usize::MAX ==> after.balancer.position()
            == before.balancer.position() + 1,
        before.balancer.position() == usize::MAX ==> after.balancer.position() == 0,
        after.balancer.targets() == before.balancer.targets(),
        after.balancer.label() == before.balancer.label(),
        after.host == before.host,
        after.source == before.source,
        after.strip_prefix == before.strip_prefix,
        after.uri_templates == before.uri_templates,
        index < before.uri_templates@.len() ==> rule_uri(before, pq) == upstream_uri(
            before.uri_templates@[index]@,
            pq,
        ),
        index >= before.uri_templates@.len() ==> rule_uri(before, pq) == Err::<UriView, ErrorView>(
            ErrorView {
                kind: ErrorKind::TemplateIndex,
                message: "proxy URI template index out of range"@,
            },
        ),
{
}

} // verus!
