//! Which headers are passed on, and what they say about a request.

use vstd::prelude::*;
use vstd::utf8::encode_utf8;

use crate::error::{ErrorKind, ErrorView};
use crate::headers::{is_header_value, merged, Contents, ValueView};
use crate::laws::text::{law_occurrence, law_visible_text};
use crate::proxy::{http_headers, refused, upgrade_headers, upgrade_kind};
use crate::proxy_headers::{
    asks_stream, asks_upgrade, connection_lists, end_to_end, forwardable, host_error, lists_token, streamed,
    upgrade_forwardable, with_forwarded,
};
use crate::text::{ascii_lowered, split_on, trimmed, visible_text};
use crate::uri::UriView;

verus! {

/// The names in the statements below are all different.
proof fn lemma_different_names()
    ensures
        "host"@ != "connection"@,
        "host"@ != "keep-alive"@,
        "host"@ != "proxy-authenticate"@,
        "host"@ != "proxy-authorization"@,
        "host"@ != "te"@,
        "host"@ != "trailer"@,
        "host"@ != "trailers"@,
        "host"@ != "transfer-encoding"@,
        "host"@ != "upgrade"@,
        "host"@ != "proxy-connection"@,
        "x-forwarded-for"@ != "connection"@,
        "x-forwarded-for"@ != "keep-alive"@,
        "x-forwarded-for"@ != "proxy-authenticate"@,
        "x-forwarded-for"@ != "proxy-authorization"@,
        "x-forwarded-for"@ != "te"@,
        "x-forwarded-for"@ != "trailer"@,
        "x-forwarded-for"@ != "trailers"@,
        "x-forwarded-for"@ != "transfer-encoding"@,
        "x-forwarded-for"@ != "upgrade"@,
        "x-forwarded-for"@ != "proxy-connection"@,
        "x-forwarded-for"@ != "host"@,
        "x-forwarded-proto"@ != "connection"@,
        "x-forwarded-proto"@ != "keep-alive"@,
        "x-forwarded-proto"@ != "proxy-authenticate"@,
        "x-forwarded-proto"@ != "proxy-authorization"@,
        "x-forwarded-proto"@ != "te"@,
        "x-forwarded-proto"@ != "trailer"@,
        "x-forwarded-proto"@ != "trailers"@,
        "x-forwarded-proto"@ != "transfer-encoding"@,
        "x-forwarded-proto"@ != "upgrade"@,
        "x-forwarded-proto"@ != "proxy-connection"@,
        "x-forwarded-proto"@ != "host"@,
        "x-forwarded-proto"@ != "x-forwarded-for"@,
        "x-forwarded-host"@ != "connection"@,
        "x-forwarded-host"@ != "keep-alive"@,
        "x-forwarded-host"@ != "proxy-authenticate"@,
        "x-forwarded-host"@ != "proxy-authorization"@,
        "x-forwarded-host"@ != "te"@,
        "x-forwarded-host"@ != "trailer"@,
        "x-forwarded-host"@ != "trailers"@,
        "x-forwarded-host"@ != "transfer-encoding"@,
        "x-forwarded-host"@ != "upgrade"@,
        "x-forwarded-host"@ != "proxy-connection"@,
        "x-forwarded-host"@ != "host"@,
        "x-forwarded-host"@ != "x-forwarded-for"@,
        "x-forwarded-host"@ != "x-forwarded-proto"@,
{
    reveal_strlit("connection");
    reveal_strlit("keep-alive");
    reveal_strlit("proxy-authenticate");
    reveal_strlit("proxy-authorization");
    reveal_strlit("te");
    reveal_strlit("trailer");
    reveal_strlit("trailers");
    reveal_strlit("transfer-encoding");
    reveal_strlit("upgrade");
    reveal_strlit("proxy-connection");
    reveal_strlit("host");
    reveal_strlit("x-forwarded-for");
    reveal_strlit("x-forwarded-proto");
    reveal_strlit("x-forwarded-host");
    assert("connection"@.len() == 10);
    assert("keep-alive"@.len() == 10);
    assert("proxy-authenticate"@.len() == 18);
    assert("proxy-authorization"@.len() == 19);
    assert("te"@.len() == 2);
    assert("trailer"@.len() == 7);
    assert("trailers"@.len() == 8);
    assert("transfer-encoding"@.len() == 17);
    assert("upgrade"@.len() == 7);
    assert("proxy-connection"@.len() == 16);
    assert("host"@.len() == 4);
    assert("x-forwarded-for"@.len() == 15);
    assert("x-forwarded-proto"@.len() == 17);
    assert("x-forwarded-host"@.len() == 16);
    assert("connection"@[0] != "keep-alive"@[0]);
    assert("trailer"@[0] != "upgrade"@[0]);
    assert("transfer-encoding"@[0] != "x-forwarded-proto"@[0]);
    assert("proxy-connection"@[0] != "x-forwarded-host"@[0]);
}

/// Copied headers replace those under the same name, each with its last value; all others stay.
/// `Host` and the headers that concern one connection only are not copied.
pub proof fn law_copied_headers(base: Contents, src: Contents, name: Seq<char>)
    ensures
        ({
            let out = merged(base, src, |n: Seq<char>| forwardable(n));
            if src.contains_key(name) && name != "connection"@ && name != "keep-alive"@ && name != "proxy-authenticate"@ && name != "proxy-authorization"@ && name != "te"@ && name != "trailers"@ && name != "transfer-encoding"@ && name != "upgrade"@ && name != "proxy-connection"@ && name != "host"@ {
                out.contains_key(name) && out[name] == seq![src[name].last()]
            } else {
                (out.contains_key(name) <==> base.contains_key(name)) && (base.contains_key(name)
                    ==> out[name] == base[name])
            }
        }),
{
}

/// With a request for another protocol every header but `Host` is copied, in the same way.
pub proof fn law_copied_upgrade_headers(base: Contents, src: Contents, name: Seq<char>)
    ensures
        ({
            let out = merged(base, src, |n: Seq<char>| upgrade_forwardable(n));
            if src.contains_key(name) && name != "host"@ {
                out.contains_key(name) && out[name] == seq![src[name].last()]
            } else {
                (out.contains_key(name) <==> base.contains_key(name)) && (base.contains_key(name)
                    ==> out[name] == base[name])
            }
        }),
{
}

/// The headers that say where a request came from: the address of the peer, where it is known, or else
/// what the client said first; what the client said first about the protocol, or else the scheme of the
/// request, or else `http`; and the host that the client asked for. No other header changes.
pub proof fn law_origin_headers(
    base: Contents,
    src: Contents,
    scheme: Option<Seq<char>>,
    remote_ip: Option<Seq<char>>,
    name: Seq<char>,
)
    ensures
        ({
            let out = with_forwarded(base, src, scheme, remote_ip);
            &&& remote_ip is Some && is_header_value(encode_utf8(remote_ip->0)) ==> out.contains_key(
                "x-forwarded-for"@,
            ) && out["x-forwarded-for"@] == seq![
                ValueView { bytes: encode_utf8(remote_ip->0), sensitive: false },
            ]
            &&& remote_ip is None && src.contains_key("x-forwarded-for"@) ==> out.contains_key(
                "x-forwarded-for"@,
            ) && out["x-forwarded-for"@] == seq![src["x-forwarded-for"@][0]]
            &&& remote_ip is Some && !is_header_value(encode_utf8(remote_ip->0)) || remote_ip is None
                && !src.contains_key("x-forwarded-for"@) ==> (out.contains_key("x-forwarded-for"@)
                <==> base.contains_key("x-forwarded-for"@)) && (base.contains_key(
                "x-forwarded-for"@,
            ) ==> out["x-forwarded-for"@] == base["x-forwarded-for"@])
            &&& out.contains_key("x-forwarded-proto"@)
            &&& src.contains_key("x-forwarded-proto"@) ==> out["x-forwarded-proto"@] == seq![
                src["x-forwarded-proto"@][0],
            ]
            &&& !src.contains_key("x-forwarded-proto"@) && scheme is Some && is_header_value(
                encode_utf8(scheme->0),
            ) ==> out["x-forwarded-proto"@] == seq![
                ValueView { bytes: encode_utf8(scheme->0), sensitive: false },
            ]
            &&& !src.contains_key("x-forwarded-proto"@) && (scheme is None || !is_header_value(
                encode_utf8(scheme->0),
            )) ==> out["x-forwarded-proto"@] == seq![
                ValueView { bytes: encode_utf8("http"@), sensitive: false },
            ]
            &&& src.contains_key("host"@) ==> out.contains_key("x-forwarded-host"@)
                && out["x-forwarded-host"@] == seq![src["host"@][0]]
            &&& !src.contains_key("host"@) ==> (out.contains_key("x-forwarded-host"@)
                <==> base.contains_key("x-forwarded-host"@)) && (base.contains_key(
                "x-forwarded-host"@,
            ) ==> out["x-forwarded-host"@] == base["x-forwarded-host"@])
            &&& name != "x-forwarded-for"@ && name != "x-forwarded-proto"@ && name != "x-forwarded-host"@ ==> (out.contains_key(name) <==> base.contains_key(name)) && (base.contains_key(
                name,
            ) ==> out[name] == base[name])
        }),
{
    lemma_different_names();
}

/// What an ordinary request to an upstream has: none of the headers that concern one connection only, the
/// authority of the upstream as `Host`, the headers that say where it came from, and every other header
/// of the client, with its last value, and no more.
pub proof fn law_http_request_headers(
    src: Contents,
    authority: Seq<char>,
    scheme: Option<Seq<char>>,
    remote_ip: Option<Seq<char>>,
    name: Seq<char>,
)
    ensures
        ({
            let out = http_headers(src, authority, scheme, remote_ip);
            let passed = |n: Seq<char>|
                (out.contains_key(n) <==> src.contains_key(n)) && (src.contains_key(n) ==> out[n]
                    == seq![src[n].last()]);
            &&& (name == "connection"@ || name == "keep-alive"@ || name == "proxy-authenticate"@ || name == "proxy-authorization"@ || name == "te"@ || name == "trailer"@ || name == "trailers"@ || name == "transfer-encoding"@ || name == "upgrade"@ || name == "proxy-connection"@) ==> !out.contains_key(name)
            &&& name != "connection"@ && name != "keep-alive"@ && name != "proxy-authenticate"@ && name != "proxy-authorization"@ && name != "te"@ && name != "trailer"@ && name != "trailers"@ && name != "transfer-encoding"@ && name != "upgrade"@ && name != "proxy-connection"@ && name != "host"@ && name != "x-forwarded-for"@ && name != "x-forwarded-proto"@ && name != "x-forwarded-host"@ ==> passed(name)
            &&& out.contains_key("host"@) && out["host"@] == seq![
                ValueView { bytes: encode_utf8(authority), sensitive: false },
            ]
            &&& remote_ip is Some && is_header_value(encode_utf8(remote_ip->0)) ==> out.contains_key(
                "x-forwarded-for"@,
            ) && out["x-forwarded-for"@] == seq![
                ValueView { bytes: encode_utf8(remote_ip->0), sensitive: false },
            ]
            &&& remote_ip is Some && !is_header_value(encode_utf8(remote_ip->0)) ==> passed(
                "x-forwarded-for"@,
            )
            &&& remote_ip is None ==> (out.contains_key("x-forwarded-for"@) <==> src.contains_key(
                "x-forwarded-for"@,
            )) && (src.contains_key("x-forwarded-for"@) ==> out["x-forwarded-for"@] == seq![
                src["x-forwarded-for"@][0],
            ])
            &&& out.contains_key("x-forwarded-proto"@) && out["x-forwarded-proto"@] == seq![
                if src.contains_key("x-forwarded-proto"@) {
                    src["x-forwarded-proto"@][0]
                } else if scheme is Some && is_header_value(encode_utf8(scheme->0)) {
                    ValueView { bytes: encode_utf8(scheme->0), sensitive: false }
                } else {
                    ValueView { bytes: encode_utf8("http"@), sensitive: false }
                },
            ]
            &&& src.contains_key("host"@) ==> out.contains_key("x-forwarded-host"@)
                && out["x-forwarded-host"@] == seq![src["host"@][0]]
            &&& !src.contains_key("host"@) ==> passed("x-forwarded-host"@)
        }),
{
    lemma_different_names();
}

/// What a request to an upstream for another protocol has: the authority of the upstream as `Host`, the
/// headers that say where it came from, and every other header of the client, with its last value, those
/// of the connection too, and no more.
pub proof fn law_upgrade_request_headers(
    src: Contents,
    authority: Seq<char>,
    scheme: Option<Seq<char>>,
    remote_ip: Option<Seq<char>>,
    name: Seq<char>,
)
    ensures
        ({
            let out = upgrade_headers(src, authority, scheme, remote_ip);
            let passed = |n: Seq<char>|
                (out.contains_key(n) <==> src.contains_key(n)) && (src.contains_key(n) ==> out[n]
                    == seq![src[n].last()]);
            &&& name != "host"@ && name != "x-forwarded-for"@ && name != "x-forwarded-proto"@ && name != "x-forwarded-host"@ ==> passed(name)
            &&& out.contains_key("host"@) && out["host"@] == seq![
                ValueView { bytes: encode_utf8(authority), sensitive: false },
            ]
            &&& remote_ip is Some && is_header_value(encode_utf8(remote_ip->0)) ==> out.contains_key(
                "x-forwarded-for"@,
            ) && out["x-forwarded-for"@] == seq![
                ValueView { bytes: encode_utf8(remote_ip->0), sensitive: false },
            ]
            &&& remote_ip is Some && !is_header_value(encode_utf8(remote_ip->0)) ==> passed(
                "x-forwarded-for"@,
            )
            &&& remote_ip is None ==> (out.contains_key("x-forwarded-for"@) <==> src.contains_key(
                "x-forwarded-for"@,
            )) && (src.contains_key("x-forwarded-for"@) ==> out["x-forwarded-for"@] == seq![
                src["x-forwarded-for"@][0],
            ])
            &&& out.contains_key("x-forwarded-proto"@) && out["x-forwarded-proto"@] == seq![
                if src.contains_key("x-forwarded-proto"@) {
                    src["x-forwarded-proto"@][0]
                } else if scheme is Some && is_header_value(encode_utf8(scheme->0)) {
                    ValueView { bytes: encode_utf8(scheme->0), sensitive: false }
                } else {
                    ValueView { bytes: encode_utf8("http"@), sensitive: false }
                },
            ]
            &&& src.contains_key("host"@) ==> out.contains_key("x-forwarded-host"@)
                && out["x-forwarded-host"@] == seq![src["host"@][0]]
            &&& !src.contains_key("host"@) ==> passed("x-forwarded-host"@)
        }),
{
    lemma_different_names();
}

/// A response keeps all headers, with all their values, but those that concern one connection only.
pub proof fn law_response_headers(headers: Contents, name: Seq<char>)
    ensures
        (name == "connection"@ || name == "keep-alive"@ || name == "proxy-authenticate"@ || name == "proxy-authorization"@ || name == "te"@ || name == "trailer"@ || name == "transfer-encoding"@ || name == "upgrade"@ || name == "proxy-connection"@) ==> !end_to_end(headers).contains_key(name),
        name != "connection"@ && name != "keep-alive"@ && name != "proxy-authenticate"@ && name != "proxy-authorization"@ && name != "te"@ && name != "trailer"@ && name != "transfer-encoding"@ && name != "upgrade"@ && name != "proxy-connection"@ ==> (end_to_end(headers).contains_key(name) <==> headers.contains_key(name)) && (
        headers.contains_key(name) ==> end_to_end(headers)[name] == headers[name]),
{
}

/// A streamed response keeps all headers, with all their values, but the three that are for a proxy.
pub proof fn law_streamed_headers(headers: Contents, name: Seq<char>)
    ensures
        (name == "proxy-authorization"@ || name == "proxy-authenticate"@ || name == "proxy-connection"@) ==> !streamed(headers).contains_key(name),
        name != "proxy-authorization"@ && name != "proxy-authenticate"@ && name != "proxy-connection"@ ==> (streamed(headers).contains_key(name) <==> headers.contains_key(name)) && (
        headers.contains_key(name) ==> streamed(headers)[name] == headers[name]),
{
}

/// The protocol that a response switches to is the first `Upgrade` header, where it is readable, or
/// else unknown.
pub proof fn law_upgrade_kind(headers: Contents, kind: Seq<char>)
    requires
        headers.contains_key("upgrade"@) ==> kind.len() == headers["upgrade"@][0].bytes.len(),
        headers.contains_key("upgrade"@) ==> forall|i: int|
            0 <= i < kind.len() ==> (#[trigger] kind[i]) as int
                == headers["upgrade"@][0].bytes[i] as int,
    ensures
        headers.contains_key("upgrade"@) && (forall|i: int|
            0 <= i < headers["upgrade"@][0].bytes.len() ==> 32
                <= #[trigger] headers["upgrade"@][0].bytes[i] <= 126
                || headers["upgrade"@][0].bytes[i] == 9) ==> upgrade_kind(headers) == kind,
        !headers.contains_key("upgrade"@) ==> upgrade_kind(headers) == "unknown"@,
        headers.contains_key("upgrade"@) && (exists|i: int|
            0 <= i < headers["upgrade"@][0].bytes.len() && !(32
                <= #[trigger] headers["upgrade"@][0].bytes[i] <= 126
                || headers["upgrade"@][0].bytes[i] == 9)) ==> upgrade_kind(headers) == "unknown"@,
{
    if headers.contains_key("upgrade"@) {
        let bytes = headers["upgrade"@][0].bytes;
        law_visible_text(bytes);
        if visible_text(bytes) is Some {
            assert(visible_text(bytes)->0 =~= kind);
        }
    }
}

proof fn lemma_part_stands(value: Seq<char>, c: char, i: int) -> (r: (Seq<char>, Seq<char>))
    requires
        0 <= i < split_on(value, c).len(),
    ensures
        value == r.0 + split_on(value, c)[i] + r.1,
        r.0.len() > 0 ==> r.0.last() == c,
        r.1.len() > 0 ==> r.1[0] == c,
        r.1.len() == 0 <==> i == split_on(value, c).len() - 1,
    decreases value.len(),
{
    let parts = split_on(value, c);
    if value.len() == 0 {
        assert(value =~= Seq::<char>::empty() + parts[i] + Seq::<char>::empty());
        (Seq::empty(), Seq::empty())
    } else {
        let x = value.last();
        let front = split_on(value.drop_last(), c);
        crate::laws::text::law_split(value.drop_last(), c);
        assert(value =~= value.drop_last().push(x));
        if x == c && i == parts.len() - 1 {
            assert(value =~= value + parts[i] + Seq::<char>::empty());
            (value, Seq::empty())
        } else {
            let (a, b) = lemma_part_stands(value.drop_last(), c, i);
            if i < parts.len() - 1 {
                assert(parts[i] == front[i]);
                assert(value =~= a + parts[i] + b.push(x));
                (a, b.push(x))
            } else {
                assert(parts[i] == front[i].push(x));
                assert(value =~= a + parts[i] + b);
                (a, b)
            }
        }
    }
}

proof fn lemma_part_found(value: Seq<char>, c: char, a: Seq<char>, part: Seq<char>, b: Seq<char>) -> (i:
    int)
    requires
        value == a + part + b,
        a.len() > 0 ==> a.last() == c,
        b.len() > 0 ==> b[0] == c,
        !part.contains(c),
    ensures
        0 <= i < split_on(value, c).len(),
        split_on(value, c)[i] == part,
        b.len() == 0 <==> i == split_on(value, c).len() - 1,
    decreases value.len(),
{
    let parts = split_on(value, c);
    if value.len() == 0 {
        assert(part =~= Seq::empty());
        0
    } else {
        let rest = value.drop_last();
        let x = value.last();
        let front = split_on(rest, c);
        crate::laws::text::law_split(rest, c);
        if b.len() > 0 {
            assert(rest =~= a + part + b.drop_last());
            assert(b.drop_last().len() > 0 ==> b.drop_last()[0] == c);
            assert(x == b.last());
            let i = lemma_part_found(rest, c, a, part, b.drop_last());
            if x != c {
                assert(b.len() > 1);
            }
            assert(parts[i] == front[i]);
            i
        } else if part.len() > 0 {
            assert(x == part.last());
            assert(part[part.len() - 1] != c);
            assert(rest =~= a + part.drop_last() + b);
            assert forall|k: int| 0 <= k < part.drop_last().len() implies part.drop_last()[k] != c by {
                assert(part[k] != c);
            }
            let i = lemma_part_found(rest, c, a, part.drop_last(), b);
            assert(parts.last() == part.drop_last().push(x));
            assert(part.drop_last().push(x) =~= part);
            parts.len() - 1
        } else {
            assert(value =~= a);
            assert(parts.last() =~= part);
            parts.len() - 1
        }
    }
}

/// A value lists a token where the token, up to the case of its letters and white space around it,
/// stands in it between commas or the ends.
pub proof fn law_listed_token(value: Seq<char>, token: Seq<char>)
    ensures
        lists_token(value, token) <==> exists|a: Seq<char>, part: Seq<char>, b: Seq<char>|
            value == #[trigger] (a + part + b) && (a.len() > 0 ==> a.last() == ',') && (b.len() > 0
                ==> b[0] == ',') && !part.contains(',') && ascii_lowered(trimmed(part))
                == ascii_lowered(token),
{
    if lists_token(value, token) {
        let i = choose|i: int|
            0 <= i < split_on(value, ',').len() && ascii_lowered(
                trimmed(#[trigger] split_on(value, ',')[i]),
            ) == ascii_lowered(token);
        let (a, b) = lemma_part_stands(value, ',', i);
        crate::laws::text::law_split(value, ',');
        let part = split_on(value, ',')[i];
        assert(value == a + part + b);
    }
    if exists|a: Seq<char>, part: Seq<char>, b: Seq<char>|
        value == #[trigger] (a + part + b) && (a.len() > 0 ==> a.last() == ',') && (b.len() > 0
            ==> b[0] == ',') && !part.contains(',') && ascii_lowered(trimmed(part))
            == ascii_lowered(token) {
        let (a, part, b) = choose|a: Seq<char>, part: Seq<char>, b: Seq<char>|
            value == #[trigger] (a + part + b) && (a.len() > 0 ==> a.last() == ',') && (b.len() > 0
                ==> b[0] == ',') && !part.contains(',') && ascii_lowered(trimmed(part))
                == ascii_lowered(token);
        let i = lemma_part_found(value, ',', a, part, b);
        assert(split_on(value, ',')[i] == part);
    }
}

/// A request asks for another protocol exactly where it has an `Upgrade` header, and its first
/// `Connection` header is readable and lists `upgrade`.
pub proof fn law_asks_upgrade(headers: Contents, value: Seq<char>)
    requires
        headers.contains_key("connection"@) ==> value.len()
            == headers["connection"@][0].bytes.len() && forall|i: int|
            0 <= i < value.len() ==> (#[trigger] value[i]) as int
                == headers["connection"@][0].bytes[i] as int,
    ensures
        asks_upgrade(headers) <==> headers.contains_key("upgrade"@) && headers.contains_key(
            "connection"@,
        ) && (forall|i: int| 0 <= i < value.len() ==> ' ' <= #[trigger] value[i] <= '~' || value[i]
            == '\t') && lists_token(value, "upgrade"@),
{
    if headers.contains_key("connection"@) {
        let bytes = headers["connection"@][0].bytes;
        law_visible_text(bytes);
        if visible_text(bytes) is Some {
            assert(visible_text(bytes)->0 =~= value);
            assert forall|i: int| 0 <= i < value.len() implies ' ' <= #[trigger] value[i] <= '~'
                || value[i] == '\t' by {
                assert(value[i] as int == bytes[i] as int);
            }
        } else if forall|i: int|
            0 <= i < value.len() ==> ' ' <= #[trigger] value[i] <= '~' || value[i] == '\t' {
            assert forall|i: int| 0 <= i < bytes.len() implies 32 <= #[trigger] bytes[i] <= 126
                || bytes[i] == 9 by {
                assert(value[i] as int == bytes[i] as int);
            }
        }
    }
}

/// A request asks for a stream of events exactly where its first `Accept` header is readable and names
/// that type, whatever the case of the letters.
pub proof fn law_asks_stream(headers: Contents, value: Seq<char>)
    requires
        headers.contains_key("accept"@) ==> value.len() == headers["accept"@][0].bytes.len()
            && forall|i: int|
            0 <= i < value.len() ==> (#[trigger] value[i]) as int
                == headers["accept"@][0].bytes[i] as int,
    ensures
        asks_stream(headers) <==> headers.contains_key("accept"@) && (forall|i: int|
            0 <= i < value.len() ==> ' ' <= #[trigger] value[i] <= '~' || value[i] == '\t') && (
        exists|a: Seq<char>, b: Seq<char>|
            ascii_lowered(value) == #[trigger] (a + "text/event-stream"@ + b)),
{
    law_occurrence(ascii_lowered(value), "text/event-stream"@);
    if headers.contains_key("accept"@) {
        let bytes = headers["accept"@][0].bytes;
        law_visible_text(bytes);
        if visible_text(bytes) is Some {
            assert(visible_text(bytes)->0 =~= value);
            assert forall|i: int| 0 <= i < value.len() implies ' ' <= #[trigger] value[i] <= '~'
                || value[i] == '\t' by {
                assert(value[i] as int == bytes[i] as int);
            }
        } else if forall|i: int|
            0 <= i < value.len() ==> ' ' <= #[trigger] value[i] <= '~' || value[i] == '\t' {
            assert forall|i: int| 0 <= i < bytes.len() implies 32 <= #[trigger] bytes[i] <= 126
                || bytes[i] == 9 by {
                assert(value[i] as int == bytes[i] as int);
            }
        }
    }
}

/// An upstream can be named in the `Host` header exactly where its URI has an authority that can be a
/// header value.
pub proof fn law_host_header(uri: UriView)
    ensures
        host_error(uri) is None <==> uri.authority is Some && is_header_value(
            encode_utf8(uri.authority->0),
        ),
        host_error(uri) matches Some(e) ==> e == (if uri.authority is None {
            ErrorView {
                kind: ErrorKind::NoAuthority,
                message: "upstream URI has no authority"@,
            }
        } else {
            ErrorView {
                kind: ErrorKind::HeaderValue,
                message: "invalid upstream Host header value: "@ + uri.authority->0,
            }
        }),
{
}

/// A request is not refused where there is a URI for it whose authority can be a header value, and it
/// comes with a number of header names that leaves room for three more; and where there is no URI, it is
/// refused for the reason that there is none.
pub proof fn law_refusal(uri: Result<UriView, ErrorView>, src: Contents, e: ErrorView)
    requires
        refused(uri, src, e),
    ensures
        uri matches Err(f) ==> e == f,
        uri matches Ok(u) ==> u.authority is None || !is_header_value(encode_utf8(u.authority->0))
            || src.dom().len() + 3 > 6553,
        uri matches Ok(u) ==> e.kind is NoAuthority && u.authority is None || e.kind is HeaderValue
            && u.authority is Some && !is_header_value(encode_utf8(u.authority->0)) || e == (
        ErrorView { kind: ErrorKind::HeaderOverflow, message: "size overflows MAX_SIZE"@ })
            && src.dom().len() + 3 > 6553,
{
}

/// The `Connection` header lists a token exactly where the first one is readable and does.
pub proof fn law_connection_token(headers: Contents, value: Seq<char>, token: Seq<char>)
    requires
        headers.contains_key("connection"@) ==> value.len()
            == headers["connection"@][0].bytes.len() && forall|i: int|
            0 <= i < value.len() ==> (#[trigger] value[i]) as int
                == headers["connection"@][0].bytes[i] as int,
    ensures
        connection_lists(headers, token) <==> headers.contains_key("connection"@) && (forall|i: int|
            0 <= i < value.len() ==> ' ' <= #[trigger] value[i] <= '~' || value[i] == '\t')
            && lists_token(value, token),
{
    if headers.contains_key("connection"@) {
        let bytes = headers["connection"@][0].bytes;
        law_visible_text(bytes);
        if visible_text(bytes) is Some {
            assert(visible_text(bytes)->0 =~= value);
            assert forall|i: int| 0 <= i < value.len() implies ' ' <= #[trigger] value[i] <= '~'
                || value[i] == '\t' by {
                assert(value[i] as int == bytes[i] as int);
            }
        } else if forall|i: int|
            0 <= i < value.len() ==> ' ' <= #[trigger] value[i] <= '~' || value[i] == '\t' {
            assert forall|i: int| 0 <= i < bytes.len() implies 32 <= #[trigger] bytes[i] <= 126
                || bytes[i] == 9 by {
                assert(value[i] as int == bytes[i] as int);
            }
        }
    }
}

} // verus!
