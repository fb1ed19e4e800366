//! The document in which the control plane describes routes.

use vstd::prelude::*;

use crate::error::{
    err, error, first_error, lemma_first_error_none, lemma_first_error_prefix, ErrorKind, ErrorView,
    GatewayError,
};
use crate::settings::file::{def_views, opt_texts, Proxy, ProxyView};
use crate::text::{
    clone_list, clone_opt, contains_text, decimal, decimal_text, occurs_in, opt_text,
    starts_with_char,
};

verus! {

/// v1 routes document returned by the control plane.
#[derive(Clone, Debug)]
pub struct RoutesDocument {
    /// Schema version; must be `1`.
    pub version: u32,
    /// Per-application route groups.
    pub apps: Vec<AppRoutes>,
}

/// Routes for a single application (`appId`).
#[derive(Clone, Debug)]
pub struct AppRoutes {
    /// Application identifier (static files under `root/{id}/`).
    pub id: String,
    /// Proxy rules for this application.
    pub routes: Vec<RouteEntry>,
}

/// One reverse-proxy rule in the v1 API (maps to [`Proxy`]).
#[derive(Clone, Debug)]
pub struct RouteEntry {
    /// Service name, for logging.
    pub name: Option<String>,
    /// Host that requests must be for.
    pub host: Option<String>,
    /// Glob that request paths must match.
    pub source: String,
    /// The one upstream.
    pub target: Option<String>,
    /// The upstreams that requests are spread over.
    pub targets: Option<Vec<String>>,
    /// Path prefix that is removed before forwarding.
    pub strip_prefix: Option<String>,
}

impl View for RouteEntry {
    type V = ProxyView;

    open spec fn view(&self) -> ProxyView {
        ProxyView {
            name: opt_text(self.name),
            host: opt_text(self.host),
            source: self.source@,
            target: opt_text(self.target),
            targets: opt_texts(self.targets),
            strip_prefix: opt_text(self.strip_prefix),
        }
    }
}

/// The routes of an application, each with the application's identifier.
pub open spec fn app_routes(app: AppRoutes) -> Seq<(Seq<char>, ProxyView)> {
    Seq::new(app.routes@.len(), |i: int| (app.id@, app.routes@[i]@))
}

/// The routes of all applications, in order, each with its application's identifier.
pub open spec fn listed_routes(apps: Seq<AppRoutes>) -> Seq<(Seq<char>, ProxyView)>
    decreases apps.len(),
{
    if apps.len() == 0 {
        Seq::empty()
    } else {
        listed_routes(apps.drop_last()) + app_routes(apps.last())
    }
}

/// `s` starts with a slash.
pub open spec fn is_rooted(s: Seq<char>) -> bool {
    s.len() > 0 && s[0] == '/'
}

/// What is wrong with the source of a route.
pub open spec fn source_error(source: Seq<char>, app_id: Seq<char>) -> Option<ErrorView> {
    if !is_rooted(source) {
        Some(
            err(
                ErrorKind::RouteSource,
                "routes bootstrap: source must start with '/' (app="@ + app_id + "): "@ + source,
            ),
        )
    } else if occurs_in(source, ".."@) {
        Some(
            err(
                ErrorKind::RouteSourceDots,
                "routes bootstrap: source must not contain '..' (app="@ + app_id + "): "@ + source,
            ),
        )
    } else {
        None
    }
}

/// What is wrong with a route of an application.
pub open spec fn route_error(route: (Seq<char>, ProxyView)) -> Option<ErrorView> {
    match source_error(route.1.source, route.0) {
        Some(e) => Some(e),
        None => if route.1.strip_prefix is Some && !is_rooted(route.1.strip_prefix->0) {
            Some(
                err(
                    ErrorKind::StripPrefix,
                    "routes bootstrap: strip-prefix must start with '/' (app="@ + route.0
                        + ", source="@ + route.1.source + ")"@,
                ),
            )
        } else {
            None
        },
    }
}

/// What is wrong with each of the routes.
pub open spec fn route_errors(routes: Seq<(Seq<char>, ProxyView)>) -> Seq<Option<ErrorView>> {
    Seq::new(routes.len(), |i: int| route_error(routes[i]))
}

/// What is wrong with a document: its version, or else the first faulty route.
pub open spec fn document_error(doc: RoutesDocument) -> Option<ErrorView> {
    if doc.version != 1 {
        Some(
            err(
                ErrorKind::DocumentVersion,
                "routes bootstrap: unsupported document version "@ + decimal(doc.version as nat)
                    + " (expected 1)"@,
            ),
        )
    } else {
        first_error(route_errors(listed_routes(doc.apps@)))
    }
}

/// The proxy rules that a document stands for.
pub open spec fn document_defs(doc: RoutesDocument) -> Seq<ProxyView> {
    let routes = listed_routes(doc.apps@);
    Seq::new(routes.len(), |i: int| routes[i].1)
}

/// Checks the source of a route.
pub fn validate_route_source(source: &str, app_id: &str) -> (r: Result<(), GatewayError>)
    ensures
        match r {
            Ok(_) => source_error(source@, app_id@) is None,
            Err(e) => source_error(source@, app_id@) == Some(e@),
        },
{
    if !starts_with_char(source, '/') {
        let mut message = "routes bootstrap: source must start with '/' (app=".to_owned();
        message.append(app_id);
        message.append("): ");
        message.append(source);
        return Err(error(ErrorKind::RouteSource, message));
    }
    if contains_text(source, "..") {
        let mut message = "routes bootstrap: source must not contain '..' (app=".to_owned();
        message.append(app_id);
        message.append("): ");
        message.append(source);
        return Err(error(ErrorKind::RouteSourceDots, message));
    }
    Ok(())
}

/// Makes a proxy rule of a route.
fn route_def(route: &RouteEntry, app_id: &str) -> (r: Result<Proxy, GatewayError>)
    ensures
        match r {
            Ok(def) => route_error((app_id@, route@)) is None && def@ == route@,
            Err(e) => route_error((app_id@, route@)) == Some(e@),
        },
{
    match validate_route_source(&route.source, app_id) {
        Ok(_) => {},
        Err(e) => {
            return Err(e);
        },
    }
    if let Some(prefix) = &route.strip_prefix {
        if !starts_with_char(prefix, '/') {
            let mut message =
                "routes bootstrap: strip-prefix must start with '/' (app=".to_owned();
            message.append(app_id);
            message.append(", source=");
            message.append(&route.source);
            message.append(")");
            return Err(error(ErrorKind::StripPrefix, message));
        }
    }
    Ok(
        Proxy {
            name: clone_opt(&route.name),
            host: clone_opt(&route.host),
            source: route.source.clone(),
            target: clone_opt(&route.target),
            targets: match &route.targets {
                Some(list) => Some(clone_list(list)),
                None => None,
            },
            strip_prefix: clone_opt(&route.strip_prefix),
        },
    )
}

pub(crate) proof fn lemma_listed_at(apps: Seq<AppRoutes>, i: int, j: int)
    requires
        0 <= i < apps.len(),
        0 <= j < apps[i].routes@.len(),
    ensures
        listed_routes(apps.take(i)).len() + j < listed_routes(apps).len(),
        listed_routes(apps)[listed_routes(apps.take(i)).len() + j] == (
            apps[i].id@,
            apps[i].routes@[j]@,
        ),
    decreases apps.len(),
{
    if i == apps.len() - 1 {
        assert(apps.take(i) =~= apps.drop_last());
    } else {
        assert(apps.drop_last().take(i) =~= apps.take(i));
        lemma_listed_at(apps.drop_last(), i, j);
    }
}

impl RoutesDocument {
    /// Validates and converts the document into TOML-equivalent proxy definitions.
    pub fn into_proxy_defs(self) -> (r: Result<Vec<Proxy>, GatewayError>)
        ensures
            match r {
                Ok(defs) => {
                    &&& document_error(self) is None
                    &&& def_views(defs@) == document_defs(self)
                    &&& defs@.len() == document_defs(self).len()
                },
                Err(e) => document_error(self) == Some(e@),
            },
    {
        if self.version != 1 {
            let mut message = "routes bootstrap: unsupported document version ".to_owned();
            message.append(&decimal_text(self.version as u64));
            message.append(" (expected 1)");
            return Err(error(ErrorKind::DocumentVersion, message));
        }
        let ghost routes = listed_routes(self.apps@);
        let ghost errors = route_errors(routes);
        let mut defs: Vec<Proxy> = Vec::new();
        let mut i: usize = 0;
        assert(errors.take(0) =~= Seq::empty());
        assert(listed_routes(self.apps@.take(0)).len() == 0);
        while i < self.apps.len()
            invariant
                i <= self.apps.len(),
                self.version == 1,
                routes == listed_routes(self.apps@),
                errors == route_errors(routes),
                defs@.len() == listed_routes(self.apps@.take(i as int)).len(),
                defs@.len() <= routes.len(),
                forall|k: int| 0 <= k < defs@.len() ==> (#[trigger] defs@[k])@ == routes[k].1,
                first_error(errors.take(defs@.len() as int)) is None,
            decreases self.apps.len() - i,
        {
            let app = &self.apps[i];
            let ghost before = listed_routes(self.apps@.take(i as int)).len();
            let mut j: usize = 0;
            while j < app.routes.len()
                invariant
                    i < self.apps.len(),
                    *app == self.apps@[i as int],
                    j <= app.routes.len(),
                    self.version == 1,
                    routes == listed_routes(self.apps@),
                    errors == route_errors(routes),
                    before == listed_routes(self.apps@.take(i as int)).len(),
                    defs@.len() == before + j,
                    defs@.len() <= routes.len(),
                    forall|k: int| 0 <= k < defs@.len() ==> (#[trigger] defs@[k])@ == routes[k].1,
                    first_error(errors.take(defs@.len() as int)) is None,
                decreases app.routes.len() - j,
            {
                let ghost n = defs@.len() as int;
                proof {
                    lemma_listed_at(self.apps@, i as int, j as int);
                    assert(errors.take(n + 1).drop_last() =~= errors.take(n));
                }
                match route_def(&app.routes[j], &app.id) {
                    Ok(def) => {
                        defs.push(def);
                    },
                    Err(e) => {
                        proof {
                            lemma_first_error_prefix(errors, n + 1);
                        }
                        return Err(e);
                    },
                }
                j += 1;
            }
            assert(self.apps@.take(i + 1).drop_last() =~= self.apps@.take(i as int));
            i += 1;
        }
        assert(self.apps@.take(i as int) =~= self.apps@);
        assert(errors.take(defs@.len() as int) =~= errors);
        assert(def_views(defs@) =~= document_defs(self));
        Ok(defs)
    }
}

/// The rules of an accepted document have sources that start with a slash and do not contain `..`, and
/// prefixes that start with a slash.
pub proof fn law_accepted_routes_are_rooted(doc: RoutesDocument)
    requires
        document_error(doc) is None,
    ensures
        doc.version == 1,
        forall|i: int|
            0 <= i < document_defs(doc).len() ==> {
                let def = #[trigger] document_defs(doc)[i];
                &&& is_rooted(def.source)
                &&& !occurs_in(def.source, ".."@)
                &&& def.strip_prefix is Some ==> is_rooted(def.strip_prefix->0)
            },
{
    let routes = listed_routes(doc.apps@);
    lemma_first_error_none(route_errors(routes));
    assert forall|i: int| 0 <= i < document_defs(doc).len() implies {
        let def = #[trigger] document_defs(doc)[i];
        &&& is_rooted(def.source)
        &&& !occurs_in(def.source, ".."@)
        &&& def.strip_prefix is Some ==> is_rooted(def.strip_prefix->0)
    } by {
        assert(route_errors(routes)[i] is None);
    }
}

} // verus!
