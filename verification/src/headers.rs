//! Header maps of the `http` crate: what they hold, and the operations on them that the gateway uses.

use vstd::prelude::*;
use vstd::utf8::encode_utf8;

use crate::error::{err, error, ErrorKind, GatewayError};
use crate::text::{opt_text, visible_text};

verus! {

/// Declares the header map of `http`.
#[verifier::external_type_specification]
#[verifier::external_body]
#[verifier::reject_recursive_types(T)]
pub struct ExHeaderMap<T>(hyper::HeaderMap<T>);

/// Declares the values of a header map.
#[verifier::external_type_specification]
#[verifier::external_body]
pub struct ExHeaderValue(hyper::header::HeaderValue);

/// Declares the names of a header map.
#[verifier::external_type_specification]
#[verifier::external_body]
pub struct ExHeaderName(hyper::header::HeaderName);

/// Declares the error of `http` for text that is no header value.
#[verifier::external_type_specification]
#[verifier::external_body]
pub struct ExInvalidHeaderValue(hyper::header::InvalidHeaderValue);

/// Declares the error of `http` for a header map that cannot grow.
#[verifier::external_type_specification]
#[verifier::external_body]
pub struct ExMaxSizeReached(hyper::header::MaxSizeReached);

/// The text of a header name.
pub uninterp spec fn name_text(name: hyper::header::HeaderName) -> Seq<char>;

/// The bytes of a header value.
pub uninterp spec fn value_bytes(value: hyper::header::HeaderValue) -> Seq<u8>;

/// A header value is marked as sensitive, so that it is not shown or indexed.
pub uninterp spec fn value_sensitive(value: hyper::header::HeaderValue) -> bool;

/// What a header value holds.
#[verifier::ext_equal]
pub struct ValueView {
    /// Its bytes.
    pub bytes: Seq<u8>,
    /// Whether it is marked as sensitive.
    pub sensitive: bool,
}

/// What a header value holds.
pub open spec fn value_view(value: hyper::header::HeaderValue) -> ValueView {
    ValueView { bytes: value_bytes(value), sensitive: value_sensitive(value) }
}

/// A value that is not marked as sensitive.
pub open spec fn plain(bytes: Seq<u8>) -> ValueView {
    ValueView { bytes, sensitive: false }
}

/// The headers of a map: under each name, in lower case, its values.
pub type Contents = Map<Seq<char>, Seq<ValueView>>;

/// What a header map holds: under each name, in lower case, the values in the order in which they
/// were added.
pub uninterp spec fn header_contents(map: hyper::HeaderMap) -> Contents;

/// As long as a header map has no more names than this, another one fits.
pub const HEADER_ROOM: usize = 6553;

/// A character that may stand in a header name, in lower case.
pub open spec fn is_name_char(c: char) -> bool {
    ||| 'a' <= c <= 'z'
    ||| '0' <= c <= '9'
    ||| '!' <= c <= '\''
    ||| c == '*'
    ||| c == '+'
    ||| c == '-'
    ||| c == '.'
    ||| '^' <= c <= '`'
    ||| c == '|'
    ||| c == '~'
}

/// A header name in lower case.
pub open spec fn is_header_name(s: Seq<char>) -> bool {
    &&& 0 < s.len() <= 65535
    &&& forall|i: int| 0 <= i < s.len() ==> is_name_char(#[trigger] s[i])
}

/// A byte that may stand in a header value.
pub open spec fn is_value_byte(b: u8) -> bool {
    b >= 32 && b != 127 || b == 9
}

/// Bytes that can be a header value.
pub open spec fn is_header_value(bytes: Seq<u8>) -> bool {
    forall|i: int| 0 <= i < bytes.len() ==> is_value_byte(#[trigger] bytes[i])
}

/// The first value under a name.
pub open spec fn first_value(
    map: Contents,
    name: Seq<char>,
) -> Option<ValueView> {
    if map.contains_key(name) {
        Some(map[name][0])
    } else {
        None
    }
}

/// The view of an optional value.
pub open spec fn opt_value(o: Option<hyper::header::HeaderValue>) -> Option<ValueView> {
    match o {
        Some(v) => Some(value_view(v)),
        None => None,
    }
}

/// The contents of optional bytes.
pub open spec fn opt_bytes(o: Option<Vec<u8>>) -> Option<Seq<u8>> {
    match o {
        Some(v) => Some(v@),
        None => None,
    }
}

/// A list of headers.
pub type HeaderList = Seq<(hyper::header::HeaderName, hyper::header::HeaderValue)>;

/// The values that a list of headers has under a name, in order.
pub open spec fn listed(list: HeaderList, name: Seq<char>) -> Seq<ValueView>
    decreases list.len(),
{
    if list.len() == 0 {
        Seq::empty()
    } else if name_text(list.last().0) == name {
        listed(list.drop_last(), name).push(value_view(list.last().1))
    } else {
        listed(list.drop_last(), name)
    }
}

/// No headers.
pub open spec fn no_headers() -> Contents {
    Map::empty()
}

/// `HeaderMap::new`: a map without headers.
#[verifier::external_body]
pub(crate) fn header_new() -> (r: hyper::HeaderMap)
    ensures
        header_contents(r) == no_headers(),
{
    hyper::HeaderMap::new()
}

/// `HeaderMap::clone`: a map with the same headers.
#[verifier::external_body]
pub(crate) fn header_clone(map: &hyper::HeaderMap) -> (r: hyper::HeaderMap)
    ensures
        header_contents(r) == header_contents(*map),
{
    map.clone()
}

/// `HeaderMap::get`, with the value cloned: the first value under the name.
#[verifier::external_body]
pub(crate) fn header_get(map: &hyper::HeaderMap, name: &str) -> (r: Option<
    hyper::header::HeaderValue,
>)
    requires
        is_header_name(name@),
    ensures
        opt_value(r) == first_value(header_contents(*map), name@),
{
    map.get(name).cloned()
}

/// `HeaderMap::contains_key`: whether there is a value under the name.
#[verifier::external_body]
pub(crate) fn header_contains(map: &hyper::HeaderMap, name: &str) -> (r: bool)
    requires
        is_header_name(name@),
    ensures
        r == header_contents(*map).contains_key(name@),
{
    map.contains_key(name)
}

/// `HeaderMap::iter`, with names and values cloned: all headers, those under one name in the order of
/// the map. In which order the names come is left open. Every name in a map has at least one value.
#[verifier::external_body]
pub(crate) fn header_list(map: &hyper::HeaderMap) -> (r: Vec<
    (hyper::header::HeaderName, hyper::header::HeaderValue),
>)
    ensures
        forall|name: Seq<char>| #[trigger]
            header_contents(*map).contains_key(name) ==> listed(r@, name).len() > 0 && listed(
                r@,
                name,
            ) == header_contents(*map)[name],
        forall|i: int|
            0 <= i < r@.len() ==> header_contents(*map).contains_key(
                name_text((#[trigger] r@[i]).0),
            ),
{
    map.iter().map(|(n, v)| (n.clone(), v.clone())).collect()
}

/// `HeaderName::from_bytes`: the header name with the given text, which is one in lower case.
#[verifier::external_body]
fn header_name(text: &str) -> (r: hyper::header::HeaderName)
    requires
        is_header_name(text@),
    ensures
        name_text(r) == text@,
{
    hyper::header::HeaderName::from_bytes(text.as_bytes()).unwrap()
}

/// `HeaderName::as_str`: the text of a header name.
#[verifier::external_body]
pub(crate) fn header_name_text(name: &hyper::header::HeaderName) -> (r: String)
    ensures
        r@ == name_text(*name),
{
    name.as_str().to_owned()
}

/// `HeaderValue::from_str`: the header value with the given text, not marked as sensitive, or an
/// error where a byte of the text may not stand in one.
#[verifier::external_body]
pub(crate) fn header_value(text: &str) -> (r: Result<
    hyper::header::HeaderValue,
    hyper::header::InvalidHeaderValue,
>)
    ensures
        match r {
            Ok(v) => is_header_value(encode_utf8(text@)) && value_bytes(v) == encode_utf8(text@)
                && !value_sensitive(v),
            Err(_) => !is_header_value(encode_utf8(text@)),
        },
{
    hyper::header::HeaderValue::from_str(text)
}

/// `HeaderValue::to_str`: the text of a header value, where all of its bytes are visible.
#[verifier::external_body]
pub(crate) fn header_value_text(value: &hyper::header::HeaderValue) -> (r: Option<String>)
    ensures
        opt_text(r) == visible_text(value_bytes(*value)),
{
    value.to_str().ok().map(str::to_owned)
}

/// `HeaderMap::try_insert`: the value, with its mark, replaces all values under the name. It fails only
/// where the map cannot grow any more, which does not happen up to [`HEADER_ROOM`] names, and then
/// leaves the headers as they were.
#[verifier::external_body]
fn header_try_insert(
    map: &mut hyper::HeaderMap,
    name: &hyper::header::HeaderName,
    value: &hyper::header::HeaderValue,
) -> (r: Result<(), hyper::header::MaxSizeReached>)
    ensures
        r is Ok ==> header_contents(*final(map)) == header_contents(*old(map)).insert(
            name_text(*name),
            seq![value_view(*value)],
        ),
        r is Err ==> header_contents(*final(map)) == header_contents(*old(map)),
        header_contents(*old(map)).dom().finite() && header_contents(*old(map)).dom().len()
            <= HEADER_ROOM ==> r is Ok,
{
    map.try_insert(name, value.clone()).map(|_| ())
}

/// `HeaderMap::remove`: removes all values under the name.
#[verifier::external_body]
pub(crate) fn header_remove(map: &mut hyper::HeaderMap, name: &str)
    requires
        is_header_name(name@),
    ensures
        header_contents(*final(map)) == header_contents(*old(map)).remove(name@),
{
    map.remove(name);
}

/// The error for a header map that cannot take another name.
pub open spec fn overflow_error() -> crate::error::ErrorView {
    err(ErrorKind::HeaderOverflow, "size overflows MAX_SIZE"@)
}

/// Sets a header, in place of all values it had.
pub(crate) fn put_header(
    map: &mut hyper::HeaderMap,
    name: &hyper::header::HeaderName,
    value: &hyper::header::HeaderValue,
) -> (r: Result<(), GatewayError>)
    ensures
        r is Ok ==> header_contents(*final(map)) == header_contents(*old(map)).insert(
            name_text(*name),
            seq![value_view(*value)],
        ),
        r matches Err(e) ==> e@ == overflow_error() && header_contents(*final(map))
            == header_contents(*old(map)),
        header_contents(*old(map)).dom().finite() && header_contents(*old(map)).dom().len()
            <= HEADER_ROOM ==> r is Ok,
{
    match header_try_insert(map, name, value) {
        Ok(_) => Ok(()),
        Err(_) => Err(error(ErrorKind::HeaderOverflow, "size overflows MAX_SIZE".to_owned())),
    }
}

/// Sets a header that is named by its text, in place of all values it had.
pub(crate) fn set_header(
    map: &mut hyper::HeaderMap,
    name: &str,
    value: &hyper::header::HeaderValue,
) -> (r: Result<(), GatewayError>)
    requires
        is_header_name(name@),
    ensures
        r is Ok ==> header_contents(*final(map)) == header_contents(*old(map)).insert(
            name@,
            seq![value_view(*value)],
        ),
        r matches Err(e) ==> e@ == overflow_error() && header_contents(*final(map))
            == header_contents(*old(map)),
        header_contents(*old(map)).dom().finite() && header_contents(*old(map)).dom().len()
            <= HEADER_ROOM ==> r is Ok,
{
    put_header(map, &header_name(name), value)
}

/// `base` with the headers of `src` set whose names `keep` accepts; of several values the last stays.
pub open spec fn merged(
    base: Contents,
    src: Contents,
    keep: spec_fn(Seq<char>) -> bool,
) -> Contents {
    Map::new(
        |name: Seq<char>| base.contains_key(name) || src.contains_key(name) && keep(name),
        |name: Seq<char>|
            if src.contains_key(name) && keep(name) {
                seq![src[name].last()]
            } else {
                base[name]
            },
    )
}

/// `base` with the listed headers set one after the other, as far as `keep` accepts their names.
pub(crate) open spec fn overlaid(
    base: Contents,
    list: HeaderList,
    keep: spec_fn(Seq<char>) -> bool,
) -> Contents
    decreases list.len(),
{
    if list.len() == 0 {
        base
    } else {
        let before = overlaid(base, list.drop_last(), keep);
        if keep(name_text(list.last().0)) {
            before.insert(name_text(list.last().0), seq![value_view(list.last().1)])
        } else {
            before
        }
    }
}

pub(crate) proof fn lemma_overlaid(
    base: Contents,
    list: HeaderList,
    keep: spec_fn(Seq<char>) -> bool,
    name: Seq<char>,
)
    ensures
        overlaid(base, list, keep).contains_key(name) <==> base.contains_key(name) || (keep(name)
            && listed(list, name).len() > 0),
        overlaid(base, list, keep).contains_key(name) ==> overlaid(base, list, keep)[name] == (
        if keep(name) && listed(list, name).len() > 0 {
            seq![listed(list, name).last()]
        } else {
            base[name]
        }),
    decreases list.len(),
{
    if list.len() > 0 {
        lemma_overlaid(base, list.drop_last(), keep, name);
    }
}

pub(crate) proof fn lemma_listed_contains(list: HeaderList, name: Seq<char>) -> (i: int)
    requires
        listed(list, name).len() > 0,
    ensures
        0 <= i < list.len(),
        name_text(list[i].0) == name,
    decreases list.len(),
{
    if name_text(list.last().0) == name {
        list.len() - 1
    } else {
        lemma_listed_contains(list.drop_last(), name)
    }
}

/// Setting the listed headers of `src` one after the other merges `src` into `base`.
pub(crate) proof fn lemma_overlaid_is_merged(
    base: Contents,
    list: HeaderList,
    src: Contents,
    keep: spec_fn(Seq<char>) -> bool,
)
    requires
        forall|name: Seq<char>| #[trigger]
            src.contains_key(name) ==> src[name].len() > 0 && listed(list, name) == src[name],
        forall|i: int| 0 <= i < list.len() ==> src.contains_key(
            name_text((#[trigger] list[i]).0),
        ),
    ensures
        overlaid(base, list, keep) == merged(base, src, keep),
{
    let a = overlaid(base, list, keep);
    let b = merged(base, src, keep);
    assert forall|name: Seq<char>| #[trigger] a.contains_key(name) == b.contains_key(name) && (
    a.contains_key(name) ==> a[name] == b[name]) by {
        lemma_overlaid(base, list, keep, name);
        if listed(list, name).len() > 0 {
            let i = lemma_listed_contains(list, name);
            assert(src.contains_key(name_text(list[i].0)));
        }
    }
    assert(a.dom() =~= b.dom()) by {
        assert forall|name: Seq<char>| a.dom().contains(name) == b.dom().contains(name) by {
            assert(a.contains_key(name) == b.contains_key(name));
        }
    }
    assert(a =~= b) by {
        assert forall|name: Seq<char>| a.dom().contains(name) implies a[name] == b[name] by {
            assert(a.contains_key(name) == b.contains_key(name));
        }
    }
}

} // verus!
