//! The headers of proxied requests and responses: what they say about a request, and which of them
//! are passed on.

use vstd::prelude::*;
use vstd::utf8::encode_utf8;

use crate::error::{err, error, error_about, ErrorKind, ErrorView, GatewayError};
use crate::headers::{
    first_value, header_contains, header_contents, header_get, header_list, header_name_text,
    header_remove, header_value, header_value_text, is_header_name, is_header_value,
    lemma_listed_contains, lemma_overlaid_is_merged, listed, merged, name_text, opt_value,
    overflow_error, overlaid, plain, put_header, set_header, Contents, HeaderList, ValueView,
    HEADER_ROOM,
};
use crate::text::{
    ascii_lowered, contains_text, occurs_in, opt_str, opt_text, same_ignoring_case, same_text,
    split_at_char, split_on, texts, to_ascii_lowercase, trim, trimmed, visible_text,
};
use crate::uri::{Uri, UriView};

verus! {

/// The names that are written out in this module are header names.
pub(crate) proof fn lemma_names()
    ensures
        is_header_name("connection"@),
        is_header_name("proxy-authorization"@),
        is_header_name("te"@),
        is_header_name("trailer"@),
        is_header_name("transfer-encoding"@),
        is_header_name("upgrade"@),
        is_header_name("keep-alive"@),
        is_header_name("proxy-authenticate"@),
        is_header_name("proxy-connection"@),
        is_header_name("host"@),
        is_header_name("accept"@),
        is_header_name("x-forwarded-for"@),
        is_header_name("x-forwarded-proto"@),
        is_header_name("x-forwarded-host"@),
{
    reveal_strlit("connection");
    reveal_strlit("proxy-authorization");
    reveal_strlit("te");
    reveal_strlit("trailer");
    reveal_strlit("transfer-encoding");
    reveal_strlit("upgrade");
    reveal_strlit("keep-alive");
    reveal_strlit("proxy-authenticate");
    reveal_strlit("proxy-connection");
    reveal_strlit("host");
    reveal_strlit("accept");
    reveal_strlit("x-forwarded-for");
    reveal_strlit("x-forwarded-proto");
    reveal_strlit("x-forwarded-host");
}

/// The text of the first value under a name, where all of its bytes are visible.
pub open spec fn first_text(headers: Contents, name: Seq<char>) -> Option<Seq<char>> {
    match first_value(headers, name) {
        Some(v) => visible_text(v.bytes),
        None => None,
    }
}

/// Reads the first value under a name as text.
pub(crate) fn header_text(headers: &hyper::HeaderMap, name: &str) -> (r: Option<String>)
    requires
        is_header_name(name@),
    ensures
        opt_text(r) == first_text(header_contents(*headers), name@),
{
    match header_get(headers, name) {
        Some(v) => header_value_text(&v),
        None => None,
    }
}

/// `token` is one of the comma-separated parts of `value`, up to white space around it and the case
/// of its letters.
pub open spec fn lists_token(value: Seq<char>, token: Seq<char>) -> bool {
    exists|i: int|
        0 <= i < split_on(value, ',').len() && ascii_lowered(
            trimmed(#[trigger] split_on(value, ',')[i]),
        ) == ascii_lowered(token)
}

/// The `Connection` header lists `token`.
pub open spec fn connection_lists(headers: Contents, token: Seq<char>) -> bool {
    match first_text(headers, "connection"@) {
        Some(value) => lists_token(value, token),
        None => false,
    }
}

/// Whether the `Connection` header lists a token.
pub fn connection_header_has_token(headers: &hyper::HeaderMap, token: &str) -> (r: bool)
    ensures
        r == connection_lists(header_contents(*headers), token@),
{
    proof {
        lemma_names();
    }
    let value = match header_text(headers, "connection") {
        Some(v) => v,
        None => {
            return false;
        },
    };
    let parts = split_at_char(&value, ',');
    let mut i: usize = 0;
    while i < parts.len()
        invariant
            i <= parts.len(),
            texts(parts@) == split_on(value@, ','),
            first_text(header_contents(*headers), "connection"@) == Some(value@),
            forall|k: int|
                0 <= k < i ==> ascii_lowered(trimmed(#[trigger] split_on(value@, ',')[k]))
                    != ascii_lowered(token@),
        decreases parts.len() - i,
    {
        assert(split_on(value@, ',')[i as int] == parts@[i as int]@);
        let part = trim(&parts[i]);
        if same_ignoring_case(&part, token) {
            return true;
        }
        i += 1;
    }
    false
}

/// The request asks for another protocol.
pub open spec fn asks_upgrade(headers: Contents) -> bool {
    headers.contains_key("upgrade"@) && connection_lists(headers, "upgrade"@)
}

/// Returns true when the request is an HTTP protocol upgrade (e.g. WebSocket).
pub fn is_protocol_upgrade(headers: &hyper::HeaderMap) -> (r: bool)
    ensures
        r == asks_upgrade(header_contents(*headers)),
{
    proof {
        lemma_names();
    }
    if !header_contains(headers, "upgrade") {
        return false;
    }
    connection_header_has_token(headers, "upgrade")
}

/// The request accepts a stream of events.
pub open spec fn asks_stream(headers: Contents) -> bool {
    match first_text(headers, "accept"@) {
        Some(value) => occurs_in(ascii_lowered(value), "text/event-stream"@),
        None => false,
    }
}

/// Returns true for long-lived streaming HTTP such as Server-Sent Events.
pub fn is_streaming_request(headers: &hyper::HeaderMap) -> (r: bool)
    ensures
        r == asks_stream(header_contents(*headers)),
{
    proof {
        lemma_names();
    }
    match header_text(headers, "accept") {
        Some(value) => {
            let lower = to_ascii_lowercase(&value);
            contains_text(&lower, "text/event-stream")
        },
        None => false,
    }
}

/// Names of headers that concern one connection only and are not copied from a request.
pub open spec fn hop_by_hop(name: Seq<char>) -> bool {
    ||| name == "connection"@
    ||| name == "keep-alive"@
    ||| name == "proxy-authenticate"@
    ||| name == "proxy-authorization"@
    ||| name == "te"@
    ||| name == "trailers"@
    ||| name == "transfer-encoding"@
    ||| name == "upgrade"@
    ||| name == "proxy-connection"@
}

/// Whether a header, named in lower case, concerns one connection only.
pub fn is_hop_by_hop_header(name: &str) -> (r: bool)
    ensures
        r == hop_by_hop(name@),
{
    same_text(name, "connection") || same_text(name, "keep-alive") || same_text(
        name,
        "proxy-authenticate",
    ) || same_text(name, "proxy-authorization") || same_text(name, "te") || same_text(
        name,
        "trailers",
    ) || same_text(name, "transfer-encoding") || same_text(name, "upgrade") || same_text(
        name,
        "proxy-connection",
    )
}

/// Header names that are passed on with an ordinary request.
pub open spec fn forwardable(name: Seq<char>) -> bool {
    !hop_by_hop(name) && name != "host"@
}

/// Header names that are passed on with a request for another protocol.
pub open spec fn upgrade_forwardable(name: Seq<char>) -> bool {
    name != "host"@
}

proof fn lemma_listed_from(list: HeaderList, src: Contents)
    requires
        forall|name: Seq<char>| #[trigger]
            src.contains_key(name) ==> listed(list, name).len() > 0,
    ensures
        src.dom().finite(),
{
    let names = list.map_values(
        |h: (hyper::header::HeaderName, hyper::header::HeaderValue)| name_text(h.0),
    );
    let all = names.to_set();
    vstd::seq_lib::seq_to_set_is_finite(names);
    assert forall|name: Seq<char>| src.dom().contains(name) implies all.contains(name) by {
        assert(src.contains_key(name));
        let i = lemma_listed_contains(list, name);
        assert(names[i] == name);
    }
    vstd::set_lib::lemma_set_subset_finite(all, src.dom());
}

/// Sets the headers of `src` in `dst`; those of one connection only are left out if `all` is false,
/// and `Host` always.
fn copy_headers(src: &hyper::HeaderMap, dst: &mut hyper::HeaderMap, all: bool) -> (r: Result<
    (),
    GatewayError,
>)
    ensures
        header_contents(*src).dom().finite(),
        r is Ok ==> header_contents(*final(dst)) == merged(
            header_contents(*old(dst)),
            header_contents(*src),
            |name: Seq<char>| name != "host"@ && (all || !hop_by_hop(name)),
        ),
        r matches Err(e) ==> e@ == overflow_error(),
        header_contents(*old(dst)).dom().finite() && header_contents(*old(dst)).dom().union(
            header_contents(*src).dom(),
        ).len() <= HEADER_ROOM ==> r is Ok,
{
    let list = header_list(src);
    let ghost from = header_contents(*src);
    let ghost base = header_contents(*dst);
    let ghost keep = |name: Seq<char>| name != "host"@ && (all || !hop_by_hop(name));
    proof {
        lemma_listed_from(list@, from);
    }
    let mut i: usize = 0;
    assert(list@.take(0) =~= Seq::empty());
    while i < list.len()
        invariant
            i <= list.len(),
            from == header_contents(*src),
            base == header_contents(*old(dst)),
            from.dom().finite(),
            keep == (|name: Seq<char>| name != "host"@ && (all || !hop_by_hop(name))),
            header_contents(*dst) == overlaid(base, list@.take(i as int), keep),
            header_contents(*dst).dom().subset_of(base.dom().union(from.dom())),
            forall|k: int|
                0 <= k < list@.len() ==> from.contains_key(name_text((#[trigger] list@[k]).0)),
        decreases list.len() - i,
    {
        assert(list@.take(i + 1).drop_last() =~= list@.take(i as int));
        assert(from.contains_key(name_text(list@[i as int].0)));
        let name = header_name_text(&list[i].0);
        if !same_text(&name, "host") && (all || !is_hop_by_hop_header(&name)) {
            proof {
                let both = base.dom().union(from.dom());
                if base.dom().finite() && both.len() <= HEADER_ROOM {
                    vstd::set_lib::lemma_len_subset(header_contents(*dst).dom(), both);
                }
            }
            match put_header(dst, &list[i].0, &list[i].1) {
                Ok(_) => {},
                Err(e) => {
                    return Err(e);
                },
            }
        }
        i += 1;
    }
    assert(list@.take(i as int) =~= list@);
    proof {
        lemma_overlaid_is_merged(base, list@, from, keep);
    }
    Ok(())
}

/// Copies the headers of a request, but for `Host` and those of one connection only.
pub fn copy_forwardable_headers(src: &hyper::HeaderMap, dst: &mut hyper::HeaderMap) -> (r: Result<
    (),
    GatewayError,
>)
    ensures
        header_contents(*src).dom().finite(),
        r is Ok ==> header_contents(*final(dst)) == merged(
            header_contents(*old(dst)),
            header_contents(*src),
            |name: Seq<char>| forwardable(name),
        ),
        r matches Err(e) ==> e@ == overflow_error(),
        header_contents(*old(dst)).dom().finite() && header_contents(*old(dst)).dom().union(
            header_contents(*src).dom(),
        ).len() <= HEADER_ROOM ==> r is Ok,
{
    assert((|name: Seq<char>| forwardable(name)) =~= (|name: Seq<char>|
        name != "host"@ && (false || !hop_by_hop(name))));
    copy_headers(src, dst, false)
}

/// Copies the headers of a request for another protocol, but for `Host`.
pub fn copy_upgrade_request_headers(src: &hyper::HeaderMap, dst: &mut hyper::HeaderMap) -> (r:
    Result<(), GatewayError>)
    ensures
        header_contents(*src).dom().finite(),
        r is Ok ==> header_contents(*final(dst)) == merged(
            header_contents(*old(dst)),
            header_contents(*src),
            |name: Seq<char>| upgrade_forwardable(name),
        ),
        r matches Err(e) ==> e@ == overflow_error(),
        header_contents(*old(dst)).dom().finite() && header_contents(*old(dst)).dom().union(
            header_contents(*src).dom(),
        ).len() <= HEADER_ROOM ==> r is Ok,
{
    assert((|name: Seq<char>| upgrade_forwardable(name)) =~= (|name: Seq<char>|
        name != "host"@ && (true || !hop_by_hop(name))));
    copy_headers(src, dst, true)
}

/// What is wrong with an upstream URI whose authority should become the `Host` header.
pub open spec fn host_error(uri: UriView) -> Option<ErrorView> {
    match uri.authority {
        None => Some(err(ErrorKind::NoAuthority, "upstream URI has no authority"@)),
        Some(authority) => if is_header_value(encode_utf8(authority)) {
            None
        } else {
            Some(
                err(ErrorKind::HeaderValue, "invalid upstream Host header value: "@ + authority),
            )
        },
    }
}

/// Makes the authority of the upstream the `Host` header.
pub fn set_upstream_host(headers: &mut hyper::HeaderMap, upstream_uri: &Uri) -> (r: Result<
    (),
    GatewayError,
>)
    ensures
        match r {
            Ok(_) => {
                &&& host_error(upstream_uri@) is None
                &&& header_contents(*final(headers)) == header_contents(*old(headers)).insert(
                    "host"@,
                    seq![plain(encode_utf8(upstream_uri@.authority->0))],
                )
            },
            Err(e) => {
                &&& header_contents(*final(headers)) == header_contents(*old(headers))
                &&& match host_error(upstream_uri@) {
                    Some(f) => e@ == f,
                    None => e@ == overflow_error() && !(header_contents(
                        *old(headers),
                    ).dom().finite() && header_contents(*old(headers)).dom().len() <= HEADER_ROOM),
                }
            },
        },
{
    proof {
        lemma_names();
    }
    let authority = match &upstream_uri.authority {
        Some(a) => a,
        None => {
            return Err(
                error(ErrorKind::NoAuthority, "upstream URI has no authority".to_owned()),
            );
        },
    };
    match header_value(authority) {
        Ok(value) => set_header(headers, "host", &value),
        Err(_) => Err(
            error_about(
                ErrorKind::HeaderValue,
                "invalid upstream Host header value: ",
                authority,
            ),
        ),
    }
}

/// The value of the `X-Forwarded-For` header: the peer's address, where it is known and can be a
/// header value, and where no peer is known what the request had.
pub open spec fn forwarded_for(src: Contents, remote_ip: Option<Seq<char>>) -> Option<ValueView> {
    match remote_ip {
        Some(ip) => if is_header_value(encode_utf8(ip)) {
            Some(plain(encode_utf8(ip)))
        } else {
            None
        },
        None => first_value(src, "x-forwarded-for"@),
    }
}

/// The value of the `X-Forwarded-Proto` header: what the request had, or else the scheme of its URI,
/// or else `http`.
pub open spec fn forwarded_proto(src: Contents, scheme: Option<Seq<char>>) -> ValueView {
    match first_value(src, "x-forwarded-proto"@) {
        Some(v) => v,
        None => match scheme {
            Some(s) => if is_header_value(encode_utf8(s)) {
                plain(encode_utf8(s))
            } else {
                plain(encode_utf8("http"@))
            },
            None => plain(encode_utf8("http"@)),
        },
    }
}

/// `base` with a header set, where there is a value for it.
pub open spec fn with_header(base: Contents, name: Seq<char>, value: Option<ValueView>) -> Contents {
    match value {
        Some(v) => base.insert(name, seq![v]),
        None => base,
    }
}

/// `base` with the headers that say where a request came from.
pub open spec fn with_forwarded(
    base: Contents,
    src: Contents,
    scheme: Option<Seq<char>>,
    remote_ip: Option<Seq<char>>,
) -> Contents {
    with_header(
        with_header(
            with_header(base, "x-forwarded-for"@, forwarded_for(src, remote_ip)),
            "x-forwarded-proto"@,
            Some(forwarded_proto(src, scheme)),
        ),
        "x-forwarded-host"@,
        first_value(src, "host"@),
    )
}

fn set_optional_header(
    headers: &mut hyper::HeaderMap,
    name: &str,
    value: Option<hyper::header::HeaderValue>,
) -> (r: Result<(), GatewayError>)
    requires
        is_header_name(name@),
    ensures
        r is Ok ==> header_contents(*final(headers)) == with_header(
            header_contents(*old(headers)),
            name@,
            opt_value(value),
        ),
        r matches Err(e) ==> e@ == overflow_error(),
        header_contents(*old(headers)).dom().finite() && header_contents(*old(headers)).dom().len()
            <= HEADER_ROOM ==> r is Ok,
{
    match value {
        Some(v) => set_header(headers, name, &v),
        None => Ok(()),
    }
}

fn text_value(text: &str) -> (r: Option<hyper::header::HeaderValue>)
    ensures
        opt_value(r) == (if is_header_value(encode_utf8(text@)) {
            Some(plain(encode_utf8(text@)))
        } else {
            None
        }),
{
    match header_value(text) {
        Ok(v) => Some(v),
        Err(_) => None,
    }
}

proof fn lemma_http_is_value()
    ensures
        is_header_value(encode_utf8("http"@)),
{
    reveal_strlit("http");
    vstd::utf8::is_ascii_chars_encode_utf8("http"@);
}

/// Sets the headers that tell the upstream where a request came from.
pub fn append_forwarded_headers(
    headers: &mut hyper::HeaderMap,
    req_headers: &hyper::HeaderMap,
    scheme: Option<&str>,
    remote_ip: Option<&str>,
) -> (r: Result<(), GatewayError>)
    ensures
        r is Ok ==> header_contents(*final(headers)) == with_forwarded(
            header_contents(*old(headers)),
            header_contents(*req_headers),
            opt_str(scheme),
            opt_str(remote_ip),
        ),
        r matches Err(e) ==> e@ == overflow_error(),
        header_contents(*old(headers)).dom().finite() && header_contents(*old(headers)).dom().len()
            + 2 <= HEADER_ROOM ==> r is Ok,
{
    proof {
        lemma_names();
        lemma_http_is_value();
    }
    let peer = match remote_ip {
        Some(ip) => text_value(ip),
        None => header_get(req_headers, "x-forwarded-for"),
    };
    match set_optional_header(headers, "x-forwarded-for", peer) {
        Ok(_) => {},
        Err(e) => {
            return Err(e);
        },
    }
    let proto = match header_get(req_headers, "x-forwarded-proto") {
        Some(v) => Some(v),
        None => {
            let own = match scheme {
                Some(s) => text_value(s),
                None => None,
            };
            match own {
                Some(v) => Some(v),
                None => text_value("http"),
            }
        },
    };
    match set_optional_header(headers, "x-forwarded-proto", proto) {
        Ok(_) => {},
        Err(e) => {
            return Err(e);
        },
    }
    let host = header_get(req_headers, "host");
    set_optional_header(headers, "x-forwarded-host", host)
}

/// Names of headers that are removed before a message is passed on.
pub open spec fn removed(name: Seq<char>) -> bool {
    ||| name == "connection"@
    ||| name == "proxy-authorization"@
    ||| name == "te"@
    ||| name == "trailer"@
    ||| name == "transfer-encoding"@
    ||| name == "upgrade"@
    ||| name == "keep-alive"@
    ||| name == "proxy-authenticate"@
    ||| name == "proxy-connection"@
}

/// The headers without those of one connection only.
pub open spec fn end_to_end(headers: Contents) -> Contents {
    headers.remove_keys(Set::new(|name: Seq<char>| removed(name)))
}

/// Removes the headers that concern one connection only from a request.
pub fn remove_hop_by_hop_request_headers(headers: &mut hyper::HeaderMap)
    ensures
        header_contents(*final(headers)) == end_to_end(header_contents(*old(headers))),
{
    proof {
        lemma_names();
    }
    header_remove(headers, "connection");
    header_remove(headers, "proxy-authorization");
    header_remove(headers, "te");
    header_remove(headers, "trailer");
    header_remove(headers, "transfer-encoding");
    header_remove(headers, "upgrade");
    header_remove(headers, "keep-alive");
    header_remove(headers, "proxy-authenticate");
    header_remove(headers, "proxy-connection");
    assert(header_contents(*headers) =~= end_to_end(header_contents(*old(headers))));
}

/// Removes the headers that concern one connection only from a response.
pub fn remove_hop_by_hop_response_headers(headers: &mut hyper::HeaderMap)
    ensures
        header_contents(*final(headers)) == end_to_end(header_contents(*old(headers))),
{
    remove_hop_by_hop_request_headers(headers);
}

/// Keeps the headers of a response that switches protocols as they are: the client needs all of them.
pub fn preserve_upgrade_response_headers(_headers: &mut hyper::HeaderMap)
    ensures
        *final(_headers) == *old(_headers),
{
}

/// Names of headers that are removed from a streamed response.
pub open spec fn removed_from_stream(name: Seq<char>) -> bool {
    ||| name == "proxy-authorization"@
    ||| name == "proxy-authenticate"@
    ||| name == "proxy-connection"@
}

/// The headers of a streamed response without those for a proxy.
pub open spec fn streamed(headers: Contents) -> Contents {
    headers.remove_keys(Set::new(|name: Seq<char>| removed_from_stream(name)))
}

/// Removes the headers for a proxy from a streamed response, and keeps those of the connection.
pub fn preserve_streaming_response_headers(headers: &mut hyper::HeaderMap)
    ensures
        header_contents(*final(headers)) == streamed(header_contents(*old(headers))),
{
    proof {
        lemma_names();
    }
    header_remove(headers, "proxy-authorization");
    header_remove(headers, "proxy-authenticate");
    header_remove(headers, "proxy-connection");
    assert(header_contents(*headers) =~= streamed(header_contents(*old(headers))));
}

} // verus!
