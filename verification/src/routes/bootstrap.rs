//! Fetching the routes: what is asked of the control plane, and what becomes of its answer.

use vstd::prelude::*;
use vstd::utf8::encode_utf8;

use crate::error::{err, error, error_about, ErrorKind, ErrorView, GatewayError};
use crate::headers::{
    header_contents, header_new, header_value, is_header_name, is_header_value, no_headers, plain,
    set_header, Contents,
};
use crate::proxy_headers::with_header;
use crate::routes::document::{document_defs, document_error, RoutesDocument};
use crate::settings::file::{
    def_views, Proxy, ProxyView, RoutesBootstrap, RoutesBootstrapOnFailure,
};
use crate::status::{canonical_reason, is_status, reason_phrase, shown_status, status_text};
use crate::text::{contains_char, opt_str};
use crate::uri::{parsed_uri, Uri, UriView};

verus! {

/// Bytes that are written as they are in an encoded form.
pub open spec fn is_unreserved(b: u8) -> bool {
    ||| b == 0x2a
    ||| b == 0x2d
    ||| b == 0x2e
    ||| 0x30 <= b <= 0x39
    ||| 0x41 <= b <= 0x5a
    ||| b == 0x5f
    ||| 0x61 <= b <= 0x7a
}

/// The upper-case hexadecimal digit for a number below sixteen.
pub open spec fn hex_digit(n: int) -> char {
    if n < 10 {
        ('0' as int + n) as char
    } else {
        ('A' as int + n - 10) as char
    }
}

/// How one byte is written in an encoded form.
pub open spec fn encoded_byte(b: u8) -> Seq<char> {
    if is_unreserved(b) {
        seq![b as char]
    } else if b == 0x20 {
        seq!['+']
    } else {
        seq!['%', hex_digit(b as int / 16), hex_digit(b as int % 16)]
    }
}

/// How bytes are written in an encoded form.
pub open spec fn encoded(bytes: Seq<u8>) -> Seq<char>
    decreases bytes.len(),
{
    if bytes.len() == 0 {
        Seq::empty()
    } else {
        encoded(bytes.drop_last()) + encoded_byte(bytes.last())
    }
}

/// `form_urlencoded::byte_serialize`, with its pieces joined: letters, digits, `*`, `-`, `.` and `_`
/// stay, a space becomes `+`, and every other byte `%` with its two hexadecimal digits.
#[verifier::external_body]
fn byte_serialize(bytes: &[u8]) -> (r: String)
    ensures
        r@ == encoded(bytes@),
{
    form_urlencoded::byte_serialize(bytes).collect()
}

/// Encodes the value of a query parameter.
pub fn url_encode_component(s: &str) -> (r: String)
    ensures
        r@ == encoded(encode_utf8(s@)),
{
    byte_serialize(s.as_bytes())
}

/// The query parameter for the client profile, where one is given.
pub open spec fn client_parameter(client_id: Option<Seq<char>>) -> Seq<char> {
    match client_id {
        Some(id) => if id.len() > 0 {
            "client="@ + encoded(encode_utf8(id)) + "&"@
        } else {
            Seq::empty()
        },
        None => Seq::empty(),
    }
}

/// The URL that the routes are fetched from: the configured one, with the client profile and the
/// version behind it as query parameters.
pub open spec fn bootstrap_url(
    base: Seq<char>,
    client_id: Option<Seq<char>>,
    version: Seq<char>,
) -> Seq<char> {
    base + (if base.contains('?') {
        "&"@
    } else {
        "?"@
    }) + client_parameter(client_id) + "weavegate="@ + encoded(encode_utf8(version))
}

/// Writes the URL that the routes are fetched from.
pub fn bootstrap_url_text(base: &str, client_id: Option<&str>, weavegate_version: &str) -> (r:
    String)
    ensures
        r@ == bootstrap_url(base@, opt_str(client_id), weavegate_version@),
{
    let mut url = base.to_owned();
    if contains_char(base, '?') {
        url.append("&");
    } else {
        url.append("?");
    }
    let ghost head = url@;
    if let Some(client) = client_id {
        if !client.is_empty() {
            url.append("client=");
            url.append(&url_encode_component(client));
            url.append("&");
        }
    }
    assert(url@ =~= head + client_parameter(opt_str(client_id)));
    url.append("weavegate=");
    url.append(&url_encode_component(weavegate_version));
    url
}

/// What becomes of the bootstrap URL: the URI that it is parsed to, or an error.
pub open spec fn bootstrap_uri_result(text: Seq<char>, parsed: Option<UriView>) -> Result<
    UriView,
    ErrorView,
> {
    match parsed {
        Some(u) => Ok(u),
        None => Err(err(ErrorKind::BootstrapUrl, "routes bootstrap: invalid URL: "@ + text)),
    }
}

/// Decides what becomes of the bootstrap URL once it has been parsed.
pub fn finish_bootstrap_uri(text: &str, parsed: Option<Uri>) -> (r: Result<Uri, GatewayError>)
    ensures
        match r {
            Ok(u) => parsed == Some(u),
            Err(e) => parsed is None && e@ == err(
                ErrorKind::BootstrapUrl,
                "routes bootstrap: invalid URL: "@ + text@,
            ),
        },
{
    match parsed {
        Some(u) => Ok(u),
        None => Err(error_about(ErrorKind::BootstrapUrl, "routes bootstrap: invalid URL: ", text)),
    }
}

/// Builds the URI that the routes are fetched from.
pub fn build_bootstrap_uri(base: &str, client_id: Option<&str>, weavegate_version: &str) -> (r:
    Result<Uri, GatewayError>)
    ensures
        match r {
            Ok(u) => {
                &&& bootstrap_uri_result(
                    bootstrap_url(base@, opt_str(client_id), weavegate_version@),
                    parsed_uri(bootstrap_url(base@, opt_str(client_id), weavegate_version@)),
                ) == Ok::<UriView, ErrorView>(u@)
                &&& u@.wf()
                &&& u@.agrees(bootstrap_url(base@, opt_str(client_id), weavegate_version@))
            },
            Err(e) => bootstrap_uri_result(
                bootstrap_url(base@, opt_str(client_id), weavegate_version@),
                parsed_uri(bootstrap_url(base@, opt_str(client_id), weavegate_version@)),
            ) == Err::<UriView, ErrorView>(e@),
        },
{
    let url = bootstrap_url_text(base, client_id, weavegate_version);
    let parsed = Uri::parse(&url);
    finish_bootstrap_uri(&url, parsed)
}

/// The credentials that are sent along: the token, where one is configured and not empty.
pub open spec fn credentials(config: RoutesBootstrap, token: Option<Seq<char>>) -> Option<
    Seq<char>,
> {
    if config.token_env is Some && token is Some && token->0.len() > 0 {
        Some("Bearer "@ + token->0)
    } else {
        None
    }
}

/// The error for text that cannot be a header value.
pub open spec fn value_error() -> ErrorView {
    err(ErrorKind::HeaderValue, "failed to parse header value"@)
}

/// What is wrong with the headers of the bootstrap request: the token is missing, or a header
/// cannot be written.
pub open spec fn request_error(
    config: RoutesBootstrap,
    token: Option<Seq<char>>,
    version: Seq<char>,
) -> Option<ErrorView> {
    if config.token_env is Some && token is None {
        Some(
            err(
                ErrorKind::BootstrapToken,
                "routes bootstrap: environment variable '"@ + config.token_env->0@
                    + "' is not set"@,
            ),
        )
    } else if !is_header_value(encode_utf8("weavegate/"@ + version)) {
        Some(value_error())
    } else if credentials(config, token) is Some && !is_header_value(
        encode_utf8(credentials(config, token)->0),
    ) {
        Some(value_error())
    } else {
        None
    }
}

/// The headers of the bootstrap request.
pub open spec fn request_headers(
    config: RoutesBootstrap,
    token: Option<Seq<char>>,
    version: Seq<char>,
) -> Contents {
    with_header(
        with_header(
            with_header(no_headers(), "accept"@, Some(plain(encode_utf8("application/json"@)))),
            "user-agent"@,
            Some(plain(encode_utf8("weavegate/"@ + version))),
        ),
        "authorization"@,
        match credentials(config, token) {
            Some(c) => Some(plain(encode_utf8(c))),
            None => None,
        },
    )
}

proof fn lemma_request_names()
    ensures
        is_header_name("accept"@),
        is_header_name("user-agent"@),
        is_header_name("authorization"@),
        is_header_value(encode_utf8("application/json"@)),
{
    reveal_strlit("accept");
    reveal_strlit("user-agent");
    reveal_strlit("authorization");
    reveal_strlit("application/json");
    vstd::utf8::is_ascii_chars_encode_utf8("application/json"@);
}

fn unwritable() -> (r: GatewayError)
    ensures
        r@ == value_error(),
{
    error(ErrorKind::HeaderValue, "failed to parse header value".to_owned())
}

/// Makes the headers of the bootstrap request; `token` is the value of the environment variable that
/// the configuration names.
pub fn bootstrap_request_headers(
    config: &RoutesBootstrap,
    token: Option<&str>,
    weavegate_version: &str,
) -> (r: Result<hyper::HeaderMap, GatewayError>)
    ensures
        match r {
            Ok(headers) => {
                &&& request_error(*config, opt_str(token), weavegate_version@) is None
                &&& header_contents(headers) == request_headers(
                    *config,
                    opt_str(token),
                    weavegate_version@,
                )
            },
            Err(e) => request_error(*config, opt_str(token), weavegate_version@) == Some(e@),
        },
{
    proof {
        lemma_request_names();
    }
    let credentials = match &config.token_env {
        Some(env_name) => match token {
            Some(t) => if t.is_empty() {
                None
            } else {
                let mut c = "Bearer ".to_owned();
                c.append(t);
                Some(c)
            },
            None => {
                let mut message = "routes bootstrap: environment variable '".to_owned();
                message.append(env_name);
                message.append("' is not set");
                return Err(error(ErrorKind::BootstrapToken, message));
            },
        },
        None => None,
    };
    let mut agent = "weavegate/".to_owned();
    agent.append(weavegate_version);
    let agent = match header_value(&agent) {
        Ok(v) => v,
        Err(_) => {
            return Err(unwritable());
        },
    };
    let credentials = match &credentials {
        Some(c) => match header_value(c) {
            Ok(v) => Some(v),
            Err(_) => {
                return Err(unwritable());
            },
        },
        None => None,
    };
    let accept = match header_value("application/json") {
        Ok(v) => v,
        Err(_) => {
            return Err(unwritable());
        },
    };
    let mut headers = header_new();
    match set_header(&mut headers, "accept", &accept) {
        Ok(_) => {},
        Err(e) => {
            return Err(e);
        },
    }
    match set_header(&mut headers, "user-agent", &agent) {
        Ok(_) => {},
        Err(e) => {
            return Err(e);
        },
    }
    if let Some(c) = &credentials {
        match set_header(&mut headers, "authorization", c) {
            Ok(_) => {},
            Err(e) => {
                return Err(e);
            },
        }
    }
    Ok(headers)
}

/// The error for an answer of the control plane that is no success.
pub open spec fn status_error(status: u16, reason: Option<Seq<char>>) -> Option<ErrorView> {
    if 200 <= status <= 299 {
        None
    } else {
        Some(
            err(
                ErrorKind::BootstrapStatus,
                "routes bootstrap: control plane returned HTTP "@ + shown_status(status, reason),
            ),
        )
    }
}

/// Decides by its status, shown with the given phrase, whether an answer is a success.
pub fn judge_bootstrap_status(status: u16, reason: Option<&str>) -> (r: Result<(), GatewayError>)
    ensures
        match r {
            Ok(_) => status_error(status, opt_str(reason)) is None,
            Err(e) => status_error(status, opt_str(reason)) == Some(e@),
        },
{
    if 200 <= status && status <= 299 {
        return Ok(());
    }
    let shown = status_text(status, reason);
    Err(
        error_about(
            ErrorKind::BootstrapStatus,
            "routes bootstrap: control plane returned HTTP ",
            &shown,
        ),
    )
}

/// Decides by its status whether an answer of the control plane is a success.
pub fn check_bootstrap_status(status: u16) -> (r: Result<(), GatewayError>)
    requires
        is_status(status),
    ensures
        match r {
            Ok(_) => status_error(status, reason_phrase(status)) is None,
            Err(e) => status_error(status, reason_phrase(status)) == Some(e@),
        },
{
    let reason = canonical_reason(status);
    match &reason {
        Some(phrase) => judge_bootstrap_status(status, Some(phrase.as_str())),
        None => judge_bootstrap_status(status, None),
    }
}

/// The seconds to wait for the control plane, or nothing where it is not asked at all.
pub fn fetch_timeout_secs(config: &RoutesBootstrap) -> (r: Option<u64>)
    ensures
        r == (if config.policy() is FileOnly {
            None
        } else {
            Some(
                match config.timeout_secs {
                    Some(secs) => secs,
                    None => 5,
                },
            )
        }),
{
    match config.failure_policy() {
        RoutesBootstrapOnFailure::FileOnly => None,
        _ => match config.timeout_secs {
            Some(secs) => Some(secs),
            None => Some(5),
        },
    }
}

/// How the attempt to fetch the routes ended.
#[derive(Debug)]
pub enum FetchOutcome {
    /// The control plane sent this document.
    Document(RoutesDocument),
    /// It could not be had, for the given reason.
    Failed(String),
    /// It did not come in time.
    TimedOut,
}

/// The rules of a document, or what is wrong with it.
pub open spec fn document_result(doc: RoutesDocument) -> Result<Option<Seq<ProxyView>>, ErrorView> {
    match document_error(doc) {
        Some(e) => Err(e),
        None => Ok(Some(document_defs(doc))),
    }
}

/// The cached document can be used: a cache is configured, a document was read from it, and there is
/// nothing wrong with it.
pub open spec fn usable_cache(config: RoutesBootstrap, cached: Option<RoutesDocument>) -> bool {
    config.cache_path is Some && cached is Some && document_error(cached->0) is None
}

/// What is used where the routes could not be fetched: those of the cache, where it can be used.
/// Without such a cache no routes are added to those of the configuration file, unless there are
/// none there either and the configuration asks to give up.
pub open spec fn fallback(
    config: RoutesBootstrap,
    reason: Seq<char>,
    cached: Option<RoutesDocument>,
    has_file_rules: bool,
) -> Result<Option<Seq<ProxyView>>, ErrorView> {
    if usable_cache(config, cached) {
        Ok(Some(document_defs(cached->0)))
    } else if config.policy() is Fail && !has_file_rules {
        Err(
            err(
                ErrorKind::BootstrapFailed,
                "routes bootstrap: fetch failed and no cache available: "@ + reason,
            ),
        )
    } else {
        Ok(None)
    }
}

/// The routes that are added to those of the configuration file.
pub open spec fn bootstrap_result(
    config: RoutesBootstrap,
    outcome: FetchOutcome,
    cached: Option<RoutesDocument>,
    has_file_rules: bool,
) -> Result<Option<Seq<ProxyView>>, ErrorView> {
    if config.policy() is FileOnly {
        Ok(None)
    } else {
        match outcome {
            FetchOutcome::Document(doc) => document_result(doc),
            FetchOutcome::Failed(reason) => fallback(config, reason@, cached, has_file_rules),
            FetchOutcome::TimedOut => fallback(
                config,
                "routes bootstrap request timed out"@,
                cached,
                has_file_rules,
            ),
        }
    }
}

/// `r` holds the rules, or the error, that `expected` says.
pub open spec fn holds_defs(
    r: Result<Option<Vec<Proxy>>, GatewayError>,
    expected: Result<Option<Seq<ProxyView>>, ErrorView>,
) -> bool {
    match r {
        Ok(Some(defs)) => expected == Ok::<Option<Seq<ProxyView>>, ErrorView>(
            Some(def_views(defs@)),
        ),
        Ok(None) => expected == Ok::<Option<Seq<ProxyView>>, ErrorView>(None),
        Err(e) => expected == Err::<Option<Seq<ProxyView>>, ErrorView>(e@),
    }
}

fn use_document(doc: RoutesDocument) -> (r: Result<Option<Vec<Proxy>>, GatewayError>)
    ensures
        holds_defs(r, document_result(doc)),
{
    match doc.into_proxy_defs() {
        Ok(defs) => Ok(Some(defs)),
        Err(e) => Err(e),
    }
}

/// Decides what is used where the routes could not be fetched; `cached` is the document in the cache
/// file, where one can be read.
pub fn handle_fetch_failure(
    config: &RoutesBootstrap,
    reason: &str,
    cached: Option<RoutesDocument>,
    has_file_rules: bool,
) -> (r: Result<Option<Vec<Proxy>>, GatewayError>)
    ensures
        holds_defs(r, fallback(*config, reason@, cached, has_file_rules)),
{
    if config.cache_path.is_some() {
        if let Some(doc) = cached {
            if let Ok(defs) = doc.into_proxy_defs() {
                return Ok(Some(defs));
            }
        }
    }
    match config.failure_policy() {
        RoutesBootstrapOnFailure::Fail => {
            if has_file_rules {
                return Ok(None);
            }
            Err(
                error_about(
                    ErrorKind::BootstrapFailed,
                    "routes bootstrap: fetch failed and no cache available: ",
                    reason,
                ),
            )
        },
        _ => Ok(None),
    }
}

/// Decides which routes are added to those of the configuration file, after the attempt to fetch them.
pub fn fetch_routes_defs(
    config: &RoutesBootstrap,
    outcome: FetchOutcome,
    cached: Option<RoutesDocument>,
    has_file_rules: bool,
) -> (r: Result<Option<Vec<Proxy>>, GatewayError>)
    ensures
        holds_defs(r, bootstrap_result(*config, outcome, cached, has_file_rules)),
{
    match config.failure_policy() {
        RoutesBootstrapOnFailure::FileOnly => {
            return Ok(None);
        },
        _ => {},
    }
    match outcome {
        FetchOutcome::Document(doc) => use_document(doc),
        FetchOutcome::Failed(reason) => handle_fetch_failure(
            config,
            &reason,
            cached,
            has_file_rules,
        ),
        FetchOutcome::TimedOut => handle_fetch_failure(
            config,
            "routes bootstrap request timed out",
            cached,
            has_file_rules,
        ),
    }
}

/// Characters that can stand in a value of a query without ending it.
pub open spec fn is_query_safe(c: char) -> bool {
    ||| '0' <= c <= '9'
    ||| 'A' <= c <= 'Z'
    ||| 'a' <= c <= 'z'
    ||| c == '*'
    ||| c == '-'
    ||| c == '.'
    ||| c == '_'
    ||| c == '+'
    ||| c == '%'
}

/// Whatever is encoded, no character of the result ends the value that it stands in: there is no
/// `&`, `=`, `?`, `#` or white space in it.
pub proof fn law_encoded_is_query_safe(bytes: Seq<u8>)
    ensures
        forall|i: int| 0 <= i < encoded(bytes).len() ==> is_query_safe(#[trigger] encoded(bytes)[i]),
    decreases bytes.len(),
{
    if bytes.len() > 0 {
        law_encoded_is_query_safe(bytes.drop_last());
        let front = encoded(bytes.drop_last());
        let b = bytes.last();
        let last = encoded_byte(b);
        assert(0 <= b as int / 16 < 16 && 0 <= b as int % 16 < 16);
        assert forall|i: int| 0 <= i < encoded(bytes).len() implies is_query_safe(
            #[trigger] encoded(bytes)[i],
        ) by {
            if i < front.len() {
                assert(encoded(bytes)[i] == front[i]);
            } else {
                assert(encoded(bytes)[i] == last[i - front.len()]);
            }
        }
    }
}

/// What happens where the routes cannot be fetched: with `file-only` nothing is used but the rules of
/// the configuration file; otherwise those of the cache are used, where it can be. Where it cannot, by
/// default the rules of the configuration file are used, and with `fail` startup is given up if, and
/// only if, there is no rule there either.
pub proof fn law_failed_fetch(
    config: RoutesBootstrap,
    outcome: FetchOutcome,
    cached: Option<RoutesDocument>,
    has_file_rules: bool,
)
    requires
        !(outcome is Document),
    ensures
        config.on_failure is None ==> config.policy() is CacheThenFile,
        config.policy() is FileOnly ==> bootstrap_result(config, outcome, cached, has_file_rules)
            == Ok::<Option<Seq<ProxyView>>, ErrorView>(None),
        !(config.policy() is FileOnly) && usable_cache(config, cached) ==> bootstrap_result(
            config,
            outcome,
            cached,
            has_file_rules,
        ) == Ok::<Option<Seq<ProxyView>>, ErrorView>(Some(document_defs(cached->0))),
        config.policy() is CacheThenFile && !usable_cache(config, cached) ==> bootstrap_result(
            config,
            outcome,
            cached,
            has_file_rules,
        ) == Ok::<Option<Seq<ProxyView>>, ErrorView>(None),
        config.policy() is Fail && !usable_cache(config, cached) && has_file_rules
            ==> bootstrap_result(config, outcome, cached, has_file_rules) == Ok::<
            Option<Seq<ProxyView>>,
            ErrorView,
        >(None),
        bootstrap_result(config, outcome, cached, has_file_rules) is Err <==> config.policy() is Fail
            && !usable_cache(config, cached) && !has_file_rules,
{
}

} // verus!
