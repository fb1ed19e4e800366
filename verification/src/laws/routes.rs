//! Which routes are asked of the control plane, and which are used.

use vstd::prelude::*;
use vstd::utf8::encode_utf8;

use crate::error::{ErrorKind, ErrorView, GatewayError};
use crate::headers::{is_header_value, ValueView};
use crate::laws::text::{law_first_error, law_occurrence};
use crate::routes::bootstrap::{
    bootstrap_result, bootstrap_uri_result, bootstrap_url, encoded, fallback, holds_defs,
    request_error, request_headers, status_error, FetchOutcome,
};
use crate::routes::document::{
    app_routes, document_defs, document_error, lemma_listed_at, listed_routes, route_error,
    route_errors, AppRoutes, RouteEntry, RoutesDocument,
};
use crate::settings::file::{Proxy, ProxyView, RoutesBootstrap, RoutesBootstrapOnFailure};
use crate::text::{decimal, occurs_in};
use crate::uri::UriView;

verus! {

proof fn lemma_dots(s: Seq<char>)
    ensures
        occurs_in(s, ".."@) <==> exists|k: int|
            0 <= k < s.len() - 1 && #[trigger] s[k] == '.' && s[k + 1] == '.',
{
    reveal_strlit("..");
    assert(".."@ =~= seq!['.', '.']);
    law_occurrence(s, ".."@);
    if occurs_in(s, ".."@) {
        let (a, b) = choose|a: Seq<char>, b: Seq<char>| s == #[trigger] (a + ".."@ + b);
        assert(s[a.len() as int] == '.');
        assert(s[a.len() as int + 1] == '.');
    }
    if exists|k: int| 0 <= k < s.len() - 1 && #[trigger] s[k] == '.' && s[k + 1] == '.' {
        let k = choose|k: int| 0 <= k < s.len() - 1 && #[trigger] s[k] == '.' && s[k + 1] == '.';
        assert(s =~= s.take(k) + ".."@ + s.skip(k + 2));
    }
}

/// A route is accepted exactly where its source starts with a slash and has no two dots in a row, and
/// its prefix, if it has one, starts with a slash. The message names application and source.
pub proof fn law_route(app: Seq<char>, route: ProxyView)
    ensures
        ({
            let dots = exists|k: int|
                0 <= k < route.source.len() - 1 && #[trigger] route.source[k] == '.'
                    && route.source[k + 1] == '.';
            let rooted = route.source.len() > 0 && route.source[0] == '/';
            let bare = route.strip_prefix is Some && (route.strip_prefix->0.len() == 0
                || route.strip_prefix->0[0] != '/');
            &&& route_error((app, route)) is None <==> rooted && !dots && !bare
            &&& !rooted ==> route_error((app, route)) == Some(
                ErrorView {
                    kind: ErrorKind::RouteSource,
                    message: "routes bootstrap: source must start with '/' (app="@ + app + "): "@
                        + route.source,
                },
            )
            &&& rooted && dots ==> route_error((app, route)) == Some(
                ErrorView {
                    kind: ErrorKind::RouteSourceDots,
                    message: "routes bootstrap: source must not contain '..' (app="@ + app + "): "@
                        + route.source,
                },
            )
            &&& rooted && !dots && bare ==> route_error((app, route)) == Some(
                ErrorView {
                    kind: ErrorKind::StripPrefix,
                    message: "routes bootstrap: strip-prefix must start with '/' (app="@ + app
                        + ", source="@ + route.source + ")"@,
                },
            )
        }),
{
    lemma_dots(route.source);
}

proof fn lemma_listed_source(apps: Seq<AppRoutes>, k: int) -> (r: (int, int))
    requires
        0 <= k < listed_routes(apps).len(),
    ensures
        0 <= r.0 < apps.len(),
        0 <= r.1 < apps[r.0].routes@.len(),
        listed_routes(apps)[k] == (apps[r.0].id@, apps[r.0].routes@[r.1]@),
    decreases apps.len(),
{
    let front = listed_routes(apps.drop_last());
    if k < front.len() {
        let (i, j) = lemma_listed_source(apps.drop_last(), k);
        assert(apps.drop_last()[i] == apps[i]);
        (i, j)
    } else {
        (apps.len() - 1, k - front.len())
    }
}

/// A document is accepted exactly where its version is 1 and every route of every application is.
pub proof fn law_document(doc: RoutesDocument)
    ensures
        document_error(doc) is None <==> doc.version == 1 && forall|i: int, j: int|
            0 <= i < doc.apps@.len() && 0 <= j < doc.apps@[i].routes@.len() ==> route_error(
                (doc.apps@[i].id@, (#[trigger] doc.apps@[i].routes@[j])@),
            ) is None,
        doc.version != 1 ==> document_error(doc) == Some(
            ErrorView {
                kind: ErrorKind::DocumentVersion,
                message: "routes bootstrap: unsupported document version "@ + decimal(
                    doc.version as nat,
                ) + " (expected 1)"@,
            },
        ),
{
    let routes = listed_routes(doc.apps@);
    let errors = route_errors(routes);
    law_first_error(errors);
    if forall|k: int| 0 <= k < errors.len() ==> #[trigger] errors[k] is None {
        assert forall|i: int, j: int|
            0 <= i < doc.apps@.len() && 0 <= j < doc.apps@[i].routes@.len() implies route_error(
            (doc.apps@[i].id@, (#[trigger] doc.apps@[i].routes@[j])@),
        ) is None by {
            lemma_listed_at(doc.apps@, i, j);
            assert(errors[listed_routes(doc.apps@.take(i)).len() + j] is None);
        }
    }
    if forall|i: int, j: int|
        0 <= i < doc.apps@.len() && 0 <= j < doc.apps@[i].routes@.len() ==> route_error(
            (doc.apps@[i].id@, (#[trigger] doc.apps@[i].routes@[j])@),
        ) is None {
        assert forall|k: int| 0 <= k < errors.len() implies #[trigger] errors[k] is None by {
            let (i, j) = lemma_listed_source(doc.apps@, k);
            assert(route_error((doc.apps@[i].id@, doc.apps@[i].routes@[j]@)) is None);
        }
    }
}

/// The routes of an application, as definitions.
pub open spec fn definitions_of(app: AppRoutes) -> Seq<ProxyView> {
    app.routes@.map_values(|route: RouteEntry| route@)
}

/// A document stands for the routes of its applications, one application after the other.
pub proof fn law_document_defs(doc: RoutesDocument)
    ensures
        document_defs(doc) == doc.apps@.map_values(|app: AppRoutes| definitions_of(app)).flatten(),
{
    let parts = doc.apps@.map_values(|app: AppRoutes| definitions_of(app));
    lemma_flat(doc.apps@);
    parts.lemma_flatten_and_flatten_alt_are_equivalent();
    assert(document_defs(doc) =~= listed_routes(doc.apps@).map_values(
        |route: (Seq<char>, ProxyView)| route.1,
    ));
}

proof fn lemma_flat(apps: Seq<AppRoutes>)
    ensures
        listed_routes(apps).map_values(|route: (Seq<char>, ProxyView)| route.1) == apps.map_values(
            |app: AppRoutes| definitions_of(app),
        ).flatten_alt(),
    decreases apps.len(),
{
    let second = |route: (Seq<char>, ProxyView)| route.1;
    let parts = apps.map_values(|app: AppRoutes| definitions_of(app));
    if apps.len() > 0 {
        let rest = apps.drop_last();
        lemma_flat(rest);
        assert(parts.drop_last() =~= rest.map_values(|app: AppRoutes| definitions_of(app)));
        assert(parts.last() == definitions_of(apps.last()));
        assert(app_routes(apps.last()).map_values(second) =~= definitions_of(apps.last()));
        assert(listed_routes(apps).map_values(second) =~= listed_routes(rest).map_values(second)
            + app_routes(apps.last()).map_values(second));
    } else {
        assert(listed_routes(apps).map_values(second) =~= parts.flatten_alt());
    }
}

/// The routes are asked of the configured URL, with the version as a parameter, and before it the
/// client profile, where one is given that is not empty. The parameters start the query of the URL, or
/// go on with it where there is one.
pub proof fn law_bootstrap_url(base: Seq<char>, id: Seq<char>, version: Seq<char>)
    ensures
        ({
            let v = encoded(encode_utf8(version));
            let c = encoded(encode_utf8(id));
            &&& !base.contains('?') ==> {
                &&& bootstrap_url(base, None, version) == base + "?weavegate="@ + v
                &&& bootstrap_url(base, Some(Seq::empty()), version) == base + "?weavegate="@ + v
                &&& id.len() > 0 ==> bootstrap_url(base, Some(id), version) == base + "?client="@ + c
                    + "&weavegate="@ + v
            }
            &&& base.contains('?') ==> {
                &&& bootstrap_url(base, None, version) == base + "&weavegate="@ + v
                &&& bootstrap_url(base, Some(Seq::empty()), version) == base + "&weavegate="@ + v
                &&& id.len() > 0 ==> bootstrap_url(base, Some(id), version) == base + "&client="@ + c
                    + "&weavegate="@ + v
            }
        }),
{
    reveal_strlit("?");
    reveal_strlit("&");
    reveal_strlit("weavegate=");
    reveal_strlit("client=");
    reveal_strlit("?weavegate=");
    reveal_strlit("&weavegate=");
    reveal_strlit("?client=");
    reveal_strlit("&client=");
    let v = encoded(encode_utf8(version));
    let c = encoded(encode_utf8(id));
    assert("?weavegate="@ =~= "?"@ + "weavegate="@);
    assert("&weavegate="@ =~= "&"@ + "weavegate="@);
    assert("?client="@ =~= "?"@ + "client="@);
    assert("&client="@ =~= "&"@ + "client="@);
    if base.contains('?') {
        assert(bootstrap_url(base, None, version) =~= base + "&weavegate="@ + v);
        assert(bootstrap_url(base, Some(Seq::empty()), version) =~= base + "&weavegate="@ + v);
        if id.len() > 0 {
            assert(bootstrap_url(base, Some(id), version) =~= base + "&client="@ + c
                + "&weavegate="@ + v);
        }
    } else {
        assert(bootstrap_url(base, None, version) =~= base + "?weavegate="@ + v);
        assert(bootstrap_url(base, Some(Seq::empty()), version) =~= base + "?weavegate="@ + v);
        if id.len() > 0 {
            assert(bootstrap_url(base, Some(id), version) =~= base + "?client="@ + c
                + "&weavegate="@ + v);
        }
    }
}

/// The request for the routes accepts JSON, names this program and its version, carries the token as
/// credentials where one is configured and not empty, and has no other header.
pub proof fn law_bootstrap_headers(
    config: RoutesBootstrap,
    token: Option<Seq<char>>,
    version: Seq<char>,
    name: Seq<char>,
)
    ensures
        ({
            let out = request_headers(config, token, version);
            let known = config.token_env is Some && token is Some && token->0.len() > 0;
            &&& out.contains_key("accept"@) && out["accept"@] == seq![
                ValueView { bytes: encode_utf8("application/json"@), sensitive: false },
            ]
            &&& out.contains_key("user-agent"@) && out["user-agent"@] == seq![
                ValueView { bytes: encode_utf8("weavegate/"@ + version), sensitive: false },
            ]
            &&& out.contains_key("authorization"@) <==> known
            &&& known ==> out["authorization"@] == seq![
                ValueView { bytes: encode_utf8("Bearer "@ + token->0), sensitive: false },
            ]
            &&& name != "accept"@ && name != "user-agent"@ && name != "authorization"@
                ==> !out.contains_key(name)
        }),
{
    reveal_strlit("accept");
    reveal_strlit("user-agent");
    reveal_strlit("authorization");
    assert("accept"@.len() == 6);
    assert("user-agent"@.len() == 10);
    assert("authorization"@.len() == 13);
}

/// The request for the routes is refused where a token is configured and not set, or where the version
/// or the token cannot stand in a header, and nowhere else.
pub proof fn law_bootstrap_request(
    config: RoutesBootstrap,
    token: Option<Seq<char>>,
    version: Seq<char>,
)
    ensures
        ({
            let unset = config.token_env is Some && token is None;
            let known = config.token_env is Some && token is Some && token->0.len() > 0;
            &&& request_error(config, token, version) is None <==> {
                &&& !unset
                &&& is_header_value(encode_utf8("weavegate/"@ + version))
                &&& known ==> is_header_value(encode_utf8("Bearer "@ + token->0))
            }
            &&& unset ==> request_error(config, token, version) == Some(
                ErrorView {
                    kind: ErrorKind::BootstrapToken,
                    message: "routes bootstrap: environment variable '"@ + config.token_env->0@
                        + "' is not set"@,
                },
            )
            &&& !unset && request_error(config, token, version) is Some ==> request_error(
                config,
                token,
                version,
            ) == Some(
                ErrorView {
                    kind: ErrorKind::HeaderValue,
                    message: "failed to parse header value"@,
                },
            )
        }),
{
}

/// An answer is a success exactly where its status is one from 200 to 299; the message for another one
/// shows it with its phrase.
pub proof fn law_answer_status(status: u16, reason: Option<Seq<char>>)
    ensures
        status_error(status, reason) is None <==> 200 <= status < 300,
        status_error(status, reason) matches Some(e) ==> e == (ErrorView {
            kind: ErrorKind::BootstrapStatus,
            message: "routes bootstrap: control plane returned HTTP "@ + decimal(status as nat)
                + " "@ + (match reason {
                Some(phrase) => phrase,
                None => "<unknown status code>"@,
            }),
        }),
{
    if let Some(e) = status_error(status, reason) {
        assert(e.message =~= "routes bootstrap: control plane returned HTTP "@ + decimal(
            status as nat,
        ) + " "@ + (match reason {
            Some(phrase) => phrase,
            None => "<unknown status code>"@,
        }));
    }
}

/// Which routes are added to those of the configuration file. With `file-only` none are. A document
/// that was fetched is used, or refused for its fault. Where none was fetched, the cached one is used if
/// a cache is configured and the document in it has no fault. Otherwise none are added, unless the
/// configuration says `fail` and the configuration file has no rules either: then startup is given up
/// for the reason that the fetch failed for.
pub proof fn law_routes_used(
    config: RoutesBootstrap,
    outcome: FetchOutcome,
    cached: Option<RoutesDocument>,
    has_file_rules: bool,
)
    ensures
        ({
            let result = bootstrap_result(config, outcome, cached, has_file_rules);
            let file_only = config.on_failure == Some(RoutesBootstrapOnFailure::FileOnly);
            let fail = config.on_failure == Some(RoutesBootstrapOnFailure::Fail);
            let sound = config.cache_path is Some && cached is Some && document_error(cached->0)
                is None;
            let none = Ok::<Option<Seq<ProxyView>>, ErrorView>(None);
            let reason = match outcome {
                FetchOutcome::Failed(text) => text@,
                _ => "routes bootstrap request timed out"@,
            };
            &&& file_only ==> result == none
            &&& !file_only && outcome is Document ==> match document_error(outcome->Document_0) {
                Some(e) => result == Err::<Option<Seq<ProxyView>>, ErrorView>(e),
                None => result == Ok::<Option<Seq<ProxyView>>, ErrorView>(
                    Some(document_defs(outcome->Document_0)),
                ),
            }
            &&& !file_only && !(outcome is Document) && sound ==> result == Ok::<
                Option<Seq<ProxyView>>,
                ErrorView,
            >(Some(document_defs(cached->0)))
            &&& !file_only && !(outcome is Document) && !sound && !(fail && !has_file_rules)
                ==> result == none
            &&& !(outcome is Document) && !sound && fail && !has_file_rules ==> result == Err::<
                Option<Seq<ProxyView>>,
                ErrorView,
            >(
                ErrorView {
                    kind: ErrorKind::BootstrapFailed,
                    message: "routes bootstrap: fetch failed and no cache available: "@ + reason,
                },
            )
        }),
{
}

/// Without a word on failure the cache is used, or else the configuration file; otherwise what the
/// configuration says counts.
pub proof fn law_failure_policy(config: RoutesBootstrap)
    ensures
        config.on_failure is None ==> config.policy() == RoutesBootstrapOnFailure::CacheThenFile,
        config.on_failure matches Some(policy) ==> config.policy() == policy,
{
}

/// Where the fetch has failed, whatever the configuration says: the cached document is used where a
/// cache is configured and the document has no fault; otherwise `fail` without rules in the
/// configuration file gives up, and in all other cases no routes are added.
pub proof fn law_fallback(
    config: RoutesBootstrap,
    reason: Seq<char>,
    cached: Option<RoutesDocument>,
    has_file_rules: bool,
)
    ensures
        ({
            let result = fallback(config, reason, cached, has_file_rules);
            let sound = config.cache_path is Some && cached is Some && document_error(cached->0)
                is None;
            let gives_up = config.on_failure == Some(RoutesBootstrapOnFailure::Fail)
                && !has_file_rules;
            &&& sound ==> result == Ok::<Option<Seq<ProxyView>>, ErrorView>(
                Some(document_defs(cached->0)),
            )
            &&& !sound && !gives_up ==> result == Ok::<Option<Seq<ProxyView>>, ErrorView>(None)
            &&& !sound && gives_up ==> result == Err::<Option<Seq<ProxyView>>, ErrorView>(
                ErrorView {
                    kind: ErrorKind::BootstrapFailed,
                    message: "routes bootstrap: fetch failed and no cache available: "@ + reason,
                },
            )
        }),
{
}

/// The first route that is not accepted decides the error: those of the applications before it, and
/// those before it in its own, are accepted.
pub proof fn law_first_faulty_route(doc: RoutesDocument, i: int, j: int)
    requires
        doc.version == 1,
        0 <= i < doc.apps@.len(),
        0 <= j < doc.apps@[i].routes@.len(),
        route_error((doc.apps@[i].id@, doc.apps@[i].routes@[j]@)) is Some,
        forall|a: int, b: int|
            0 <= a < doc.apps@.len() && 0 <= b < doc.apps@[a].routes@.len() && (a < i || a == i && b
                < j) ==> route_error((doc.apps@[a].id@, (#[trigger] doc.apps@[a].routes@[b])@))
                is None,
    ensures
        document_error(doc) == route_error((doc.apps@[i].id@, doc.apps@[i].routes@[j]@)),
{
    let apps = doc.apps@;
    let routes = listed_routes(apps);
    let errors = route_errors(routes);
    law_first_error(errors);
    lemma_listed_at(apps, i, j);
    let n = listed_routes(apps.take(i)).len() + j;
    assert(errors[n as int] is Some);
    assert forall|k: int| 0 <= k < n implies #[trigger] errors[k] is None by {
        if k < listed_routes(apps.take(i)).len() {
            let (a, b) = lemma_listed_source(apps.take(i), k);
            lemma_listed_prefix(apps, i, k);
            assert(apps.take(i)[a] == apps[a]);
            assert(route_error((apps[a].id@, apps[a].routes@[b]@)) is None);
        } else {
            let b = k - listed_routes(apps.take(i)).len();
            lemma_listed_at(apps, i, b);
            assert(route_error((apps[i].id@, apps[i].routes@[b]@)) is None);
        }
    }
}

proof fn lemma_listed_prefix(apps: Seq<AppRoutes>, i: int, k: int)
    requires
        0 <= i <= apps.len(),
        0 <= k < listed_routes(apps.take(i)).len(),
    ensures
        k < listed_routes(apps).len(),
        listed_routes(apps)[k] == listed_routes(apps.take(i))[k],
    decreases apps.len() - i,
{
    if i < apps.len() {
        assert(apps.take(i + 1).drop_last() =~= apps.take(i));
        lemma_listed_prefix(apps, i + 1, k);
    } else {
        assert(apps.take(i) =~= apps);
    }
}

/// What is handed on is exactly what was decided: the same rules in the same order, none at all, or the
/// same error.
pub proof fn law_handed_on(
    r: Result<Option<Vec<Proxy>>, GatewayError>,
    decided: Result<Option<Seq<ProxyView>>, ErrorView>,
)
    requires
        holds_defs(r, decided),
    ensures
        r is Ok <==> decided is Ok,
        r matches Err(e) ==> decided->Err_0.kind == e.kind && decided->Err_0.message == e.message@,
        r is Ok && r->Ok_0 is None <==> decided is Ok && decided->Ok_0 is None,
        r is Ok && r->Ok_0 is Some ==> decided->Ok_0->0.len() == r->Ok_0->0@.len() && forall|i: int|
            0 <= i < r->Ok_0->0@.len() ==> decided->Ok_0->0[i] == (#[trigger] r->Ok_0->0@[i])@,
{
}

/// The URL for the routes is taken as the URI that it stands for; where it stands for none, it is
/// refused.
pub proof fn law_bootstrap_uri(text: Seq<char>, parsed: Option<UriView>)
    ensures
        match parsed {
            Some(u) => bootstrap_uri_result(text, parsed) == Ok::<UriView, ErrorView>(u),
            None => bootstrap_uri_result(text, parsed) == Err::<UriView, ErrorView>(
                ErrorView {
                    kind: ErrorKind::BootstrapUrl,
                    message: "routes bootstrap: invalid URL: "@ + text,
                },
            ),
        },
{
}

} // verus!
