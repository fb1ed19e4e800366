//! What holds of the gateway as a whole.

use vstd::arithmetic::div_mod::{lemma_fundamental_div_mod, lemma_fundamental_div_mod_converse};
use vstd::prelude::*;
use vstd::utf8::encode_utf8;

use crate::glob::glob_paths;
use crate::headers::{first_value, plain, Contents};
use crate::proxy::{
    compiled_from, file_defs, first_match, http_headers, rule_matches, upgrade_headers,
};
use crate::proxy_compile::compiled;
use crate::proxy_headers::{
    forwardable, forwarded_for, forwarded_proto, hop_by_hop, removed, upgrade_forwardable,
};
use crate::proxy_sort::{law_ranked_is_sorted, more_specific, ranked, specificity};
use crate::routes::bootstrap::{bootstrap_result, law_failed_fetch, usable_cache, FetchOutcome};
use crate::routes::document::RoutesDocument;
use crate::settings::file::{ProxyView, RoutesBootstrap};
use crate::settings::{next_position, Advanced, ProxyRule};

pub mod headers;
pub mod matching;
pub mod options;
pub mod routes;
pub mod text;
pub mod trust;
pub mod upstream;

verus! {

/// The definition is for requests of this host and path.
pub open spec fn def_matches(def: ProxyView, host: Seq<char>, path: Seq<char>) -> bool {
    &&& def.host is Some ==> def.host->0 == host
    &&& glob_paths(def.source) is Some
    &&& glob_paths(def.source)->0.contains(path)
}

proof fn lemma_first_match(rules: Seq<ProxyRule>, host: Seq<char>, path: Seq<char>, n: int) -> (i:
    int)
    requires
        0 <= n < rules.len(),
        rule_matches(rules[n], host, path),
    ensures
        first_match(rules, host, path, i),
    decreases n,
{
    if exists|j: int| 0 <= j < n && rule_matches(#[trigger] rules[j], host, path) {
        let j = choose|j: int| 0 <= j < n && rule_matches(#[trigger] rules[j], host, path);
        lemma_first_match(rules, host, path, j)
    } else {
        n
    }
}

/// Where a definition is for a request, some rule is found for it, and the definition that the rule
/// comes from is for the request too and at least as specific.
pub proof fn law_most_specific_rule_wins(
    defs: Seq<ProxyView>,
    rules: Seq<ProxyRule>,
    host: Seq<char>,
    path: Seq<char>,
    def: ProxyView,
)
    requires
        compiled_from(rules, defs),
        defs.contains(def),
        def_matches(def, host, path),
    ensures
        exists|i: int| first_match(rules, host, path, i),
        forall|i: int| #[trigger]
            first_match(rules, host, path, i) ==> def_matches(ranked(defs)[i], host, path)
                && !more_specific(
                specificity(def.source),
                specificity(ranked(defs)[i].source),
            ),
{
    law_ranked_is_sorted(defs);
    vstd::seq_lib::to_multiset_contains(defs, def);
    vstd::seq_lib::to_multiset_contains(ranked(defs), def);
    let n = choose|n: int| 0 <= n < ranked(defs).len() && ranked(defs)[n] == def;
    assert(compiled(rules[n], ranked(defs)[n]));
    let first = lemma_first_match(rules, host, path, n);
    assert forall|i: int| #[trigger] first_match(rules, host, path, i) implies def_matches(
        ranked(defs)[i],
        host,
        path,
    ) && !more_specific(specificity(def.source), specificity(ranked(defs)[i].source)) by {
        assert(compiled(rules[i], ranked(defs)[i]));
        assert(i <= n);
    }
}

/// The counter of a balancer after `k` picks.
pub open spec fn position_after(position: usize, k: nat) -> usize
    decreases k,
{
    if k == 0 {
        position
    } else {
        next_position(position_after(position, (k - 1) as nat))
    }
}

/// The index that is picked with the counter at `position`.
pub open spec fn index_at(position: usize, n: nat) -> int {
    position as int % n as int
}

/// One of the next `n` picks from `n` upstreams is `t`.
pub open spec fn picked_within(position: usize, n: nat, t: int) -> bool {
    exists|k: nat| k < n && #[trigger] index_at(position_after(position, k), n) == t
}

proof fn lemma_position_after(position: usize, k: nat)
    requires
        position + k <= usize::MAX,
    ensures
        position_after(position, k) == position + k,
    decreases k,
{
    if k > 0 {
        lemma_position_after(position, (k - 1) as nat);
    }
}

/// Picks go round: as long as the counter does not start over, `n` picks in a row from `n` upstreams
/// pick every one of them exactly once, and the pick after an upstream is the one that follows it.
pub proof fn law_round_robin(position: usize, n: nat)
    requires
        n > 0,
        position + n <= usize::MAX,
    ensures
        forall|t: int| 0 <= t < n ==> #[trigger] picked_within(position, n, t),
        forall|j: nat, k: nat|
            j < n && k < n && #[trigger] index_at(position_after(position, j), n)
                == #[trigger] index_at(position_after(position, k), n) ==> j == k,
        forall|k: nat|
            k < n ==> #[trigger] index_at(position_after(position, k + 1), n) == (index_at(
                position_after(position, k),
                n,
            ) + 1) % n as int,
{
    let m = n as int;
    let r = position as int % m;
    let q = position as int / m;
    lemma_fundamental_div_mod(position as int, m);
    assert forall|t: int| 0 <= t < n implies #[trigger] picked_within(position, n, t) by {
        let k: nat = if t >= r {
            (t - r) as nat
        } else {
            (t - r + m) as nat
        };
        lemma_position_after(position, k);
        if t >= r {
            lemma_fundamental_div_mod_converse(position + k, m, q, t);
        } else {
            assert((q + 1) * m == q * m + m) by (nonlinear_arith);
            lemma_fundamental_div_mod_converse(position + k, m, q + 1, t);
        }
        assert(index_at(position_after(position, k), n) == t);
    }
    assert forall|j: nat, k: nat|
        j < n && k < n && #[trigger] index_at(position_after(position, j), n)
            == #[trigger] index_at(position_after(position, k), n) implies j == k by {
        lemma_position_after(position, j);
        lemma_position_after(position, k);
        lemma_fundamental_div_mod(position + j, m);
        lemma_fundamental_div_mod(position + k, m);
        let a = (position + j) / m;
        let b = (position + k) / m;
        assert(a == b) by (nonlinear_arith)
            requires
                m > 0,
                -m < m * a - m * b < m,
        ;
    }
    assert forall|k: nat| k < n implies #[trigger] index_at(position_after(position, k + 1), n) == (
    index_at(position_after(position, k), n) + 1) % n as int by {
        lemma_position_after(position, k);
        lemma_position_after(position, k + 1);
        let x = position + k;
        lemma_fundamental_div_mod(x, m);
        let s = x % m + 1;
        if s < m {
            lemma_fundamental_div_mod_converse(x + 1, m, x / m, s);
            lemma_fundamental_div_mod_converse(s, m, 0, s);
        } else {
            assert((x / m + 1) * m == (x / m) * m + m) by (nonlinear_arith);
            lemma_fundamental_div_mod_converse(x + 1, m, x / m + 1, 0);
            lemma_fundamental_div_mod_converse(s, m, 1, 0);
        }
    }
}

/// A header that says where a request came from.
pub open spec fn says_origin(name: Seq<char>) -> bool {
    ||| name == "x-forwarded-for"@
    ||| name == "x-forwarded-proto"@
    ||| name == "x-forwarded-host"@
}

proof fn lemma_origin_names()
    ensures
        !removed("host"@),
        !says_origin("host"@),
        forall|name: Seq<char>| #[trigger] says_origin(name) ==> !removed(name) && !hop_by_hop(name),
        "x-forwarded-for"@ != "x-forwarded-proto"@,
        "x-forwarded-for"@ != "x-forwarded-host"@,
        "x-forwarded-proto"@ != "x-forwarded-host"@,
        !hop_by_hop("host"@),
        "upgrade"@ != "host"@,
        "connection"@ != "host"@,
{
    reveal_strlit("connection");
    reveal_strlit("proxy-authorization");
    reveal_strlit("te");
    reveal_strlit("trailer");
    reveal_strlit("trailers");
    reveal_strlit("transfer-encoding");
    reveal_strlit("upgrade");
    reveal_strlit("keep-alive");
    reveal_strlit("proxy-authenticate");
    reveal_strlit("proxy-connection");
    reveal_strlit("host");
    reveal_strlit("x-forwarded-for");
    reveal_strlit("x-forwarded-proto");
    reveal_strlit("x-forwarded-host");
    assert("connection"@.len() == 10);
    assert("proxy-authorization"@.len() == 19);
    assert("te"@.len() == 2);
    assert("trailer"@.len() == 7);
    assert("trailers"@.len() == 8);
    assert("transfer-encoding"@.len() == 17);
    assert("upgrade"@.len() == 7);
    assert("keep-alive"@.len() == 10);
    assert("proxy-authenticate"@.len() == 18);
    assert("proxy-connection"@.len() == 16);
    assert("host"@.len() == 4);
    assert("x-forwarded-for"@.len() == 15);
    assert("x-forwarded-proto"@.len() == 17);
    assert("x-forwarded-host"@.len() == 16);
    assert("x-forwarded-proto"@[0] != "transfer-encoding"@[0]);
    assert("x-forwarded-host"@[0] != "proxy-connection"@[0]);
}

/// A forwarded request has no header that concerns one connection only, the authority of the upstream
/// as `Host`, the headers that say where it came from, and of the headers of the client all others, each
/// with its last value, and no more.
pub proof fn law_forwarded_headers(
    src: Contents,
    authority: Seq<char>,
    scheme: Option<Seq<char>>,
    remote_ip: Option<Seq<char>>,
)
    ensures
        forall|name: Seq<char>|
            hop_by_hop(name) || removed(name) ==> !(#[trigger] http_headers(
                src,
                authority,
                scheme,
                remote_ip,
            ).contains_key(name)),
        first_value(http_headers(src, authority, scheme, remote_ip), "host"@) == Some(
            plain(encode_utf8(authority)),
        ),
        first_value(http_headers(src, authority, scheme, remote_ip), "x-forwarded-proto"@) == Some(
            forwarded_proto(src, scheme),
        ),
        forwarded_for(src, remote_ip) is Some ==> first_value(
            http_headers(src, authority, scheme, remote_ip),
            "x-forwarded-for"@,
        ) == forwarded_for(src, remote_ip),
        src.contains_key("host"@) ==> first_value(
            http_headers(src, authority, scheme, remote_ip),
            "x-forwarded-host"@,
        ) == first_value(src, "host"@),
        forall|name: Seq<char>|
            forwardable(name) && !removed(name) && !says_origin(name) ==> (
            #[trigger] http_headers(src, authority, scheme, remote_ip).contains_key(name)
                <==> src.contains_key(name)),
        forall|name: Seq<char>|
            src.contains_key(name) && forwardable(name) && !removed(name) && !says_origin(name)
                ==> #[trigger] http_headers(src, authority, scheme, remote_ip)[name]
                == seq![src[name].last()],
{
    lemma_origin_names();
    assert(says_origin("x-forwarded-for"@));
    assert(says_origin("x-forwarded-proto"@));
    assert(says_origin("x-forwarded-host"@));
    let out = http_headers(src, authority, scheme, remote_ip);
    assert forall|name: Seq<char>| hop_by_hop(name) || removed(name) implies !(
    #[trigger] out.contains_key(name)) by {
        assert(!says_origin(name));
        assert(!forwardable(name) || removed(name));
    }
}

/// A request for another protocol keeps all headers of the client but `Host`, those of the connection
/// too, each with its last value; besides it has the authority of the upstream as `Host` and the headers
/// that say where it came from.
pub proof fn law_upgrade_headers(
    src: Contents,
    authority: Seq<char>,
    scheme: Option<Seq<char>>,
    remote_ip: Option<Seq<char>>,
)
    ensures
        first_value(upgrade_headers(src, authority, scheme, remote_ip), "host"@) == Some(
            plain(encode_utf8(authority)),
        ),
        first_value(upgrade_headers(src, authority, scheme, remote_ip), "x-forwarded-proto"@)
            == Some(forwarded_proto(src, scheme)),
        forall|name: Seq<char>|
            upgrade_forwardable(name) && !says_origin(name) ==> (#[trigger] upgrade_headers(
                src,
                authority,
                scheme,
                remote_ip,
            ).contains_key(name) <==> src.contains_key(name)),
        forall|name: Seq<char>|
            src.contains_key(name) && upgrade_forwardable(name) && !says_origin(name)
                ==> #[trigger] upgrade_headers(src, authority, scheme, remote_ip)[name]
                == seq![src[name].last()],
        src.contains_key("upgrade"@) ==> upgrade_headers(
            src,
            authority,
            scheme,
            remote_ip,
        ).contains_key("upgrade"@),
{
    lemma_origin_names();
    reveal_strlit("upgrade");
    reveal_strlit("x-forwarded-for");
    reveal_strlit("x-forwarded-proto");
    reveal_strlit("x-forwarded-host");
}

/// With `fail`, after a failed fetch startup goes on exactly where there is something to route by: a
/// cached document that can be used, or a rule in the configuration file.
pub proof fn law_fail_needs_other_rules(
    advanced: Advanced,
    config: RoutesBootstrap,
    outcome: FetchOutcome,
    cached: Option<RoutesDocument>,
)
    requires
        advanced.routes_bootstrap == Some(config),
        config.policy() is Fail,
        !(outcome is Document),
    ensures
        bootstrap_result(config, outcome, cached, file_defs(advanced).len() > 0) is Ok
            <==> usable_cache(config, cached) || file_defs(advanced).len() > 0,
{
    law_failed_fetch(config, outcome, cached, file_defs(advanced).len() > 0);
}

} // verus!
