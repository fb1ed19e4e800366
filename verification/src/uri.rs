//! URIs, taken apart by the `http` crate and held as plain text.

use vstd::prelude::*;

use crate::text::{ascii_lowered, clone_opt, opt_text};

verus! {

/// A URI and its components.
#[derive(Debug)]
pub struct Uri {
    /// The whole URI, in the form in which it is written out.
    pub text: String,
    /// The scheme, if the URI is absolute.
    pub scheme: Option<String>,
    /// User information, host and port.
    pub authority: Option<String>,
    /// The host of the authority.
    pub host: Option<String>,
    /// The path; empty where the URI is an authority alone.
    pub path: String,
    /// Path and query; missing where the URI is an authority alone.
    pub path_and_query: Option<String>,
}

/// The mathematical view of a [`Uri`].
#[verifier::ext_equal]
pub struct UriView {
    pub text: Seq<char>,
    pub scheme: Option<Seq<char>>,
    pub authority: Option<Seq<char>>,
    pub host: Option<Seq<char>>,
    pub path: Seq<char>,
    pub path_and_query: Option<Seq<char>>,
}

impl View for Uri {
    type V = UriView;

    open spec fn view(&self) -> UriView {
        UriView {
            text: self.text@,
            scheme: opt_text(self.scheme),
            authority: opt_text(self.authority),
            host: opt_text(self.host),
            path: self.path@,
            path_and_query: opt_text(self.path_and_query),
        }
    }
}

/// `c` ends the authority of a URI.
pub open spec fn ends_authority(c: char) -> bool {
    c == '/' || c == '?' || c == '#'
}

/// No character of `s` ends an authority.
pub open spec fn within_authority(s: Seq<char>) -> bool {
    forall|i: int| 0 <= i < s.len() ==> !ends_authority(#[trigger] s[i])
}

/// The part of `s` before its first `#`.
pub open spec fn before_fragment(s: Seq<char>) -> Seq<char>
    decreases s.len(),
{
    if s.len() == 0 || s[0] == '#' {
        Seq::empty()
    } else {
        seq![s[0]] + before_fragment(s.skip(1))
    }
}

/// Text without `#` is all before the fragment.
pub proof fn lemma_before_fragment(s: Seq<char>)
    requires
        !s.contains('#'),
    ensures
        before_fragment(s) == s,
    decreases s.len(),
{
    if s.len() > 0 {
        assert(s[0] != '#');
        assert forall|i: int| 0 <= i < s.skip(1).len() implies s.skip(1)[i] != '#' by {
            assert(s[i + 1] != '#');
        }
        lemma_before_fragment(s.skip(1));
        assert(seq![s[0]] + s.skip(1) =~= s);
    } else {
        assert(before_fragment(s) =~= s);
    }
}

/// Path and query behind an authority: a query alone gets the path `/`.
pub open spec fn rooted(path_and_query: Seq<char>) -> Seq<char> {
    if path_and_query.len() > 0 && path_and_query[0] == '?' {
        seq!['/'] + path_and_query
    } else {
        path_and_query
    }
}

impl UriView {
    /// What holds of the components of every URI; one with a scheme is written out as scheme, `://`,
    /// authority, path and query.
    pub open spec fn wf(self) -> bool {
        &&& self.scheme is Some ==> self.authority is Some && self.path_and_query is Some
        &&& self.scheme is Some ==> !self.scheme->0.contains(':') && within_authority(
            self.scheme->0,
        )
        &&& self.scheme is Some ==> self.path.len() > 0 && self.path[0] == '/'
        &&& !self.path.contains('#')
        &&& self.host is Some <==> self.authority is Some
        &&& self.authority is Some ==> within_authority(self.authority->0)
        &&& self.path_and_query is Some ==> !self.path_and_query->0.contains('#')
        &&& self.scheme is Some ==> self.text == self.scheme->0 + seq![':', '/', '/']
            + self.authority->0 + rooted(self.path_and_query->0)
    }

    /// `text` is an absolute URI with these components: `head`, which is the scheme up to the case
    /// of its letters, `://`, the authority, and `rest`, which up to its fragment is path and query.
    pub open spec fn splits(self, text: Seq<char>, head: Seq<char>, rest: Seq<char>) -> bool {
        &&& self.scheme is Some
        &&& self.authority is Some
        &&& text == head + seq![':', '/', '/'] + self.authority->0 + rest
        &&& !head.contains(':')
        &&& ascii_lowered(head) == ascii_lowered(self.scheme->0)
        &&& rest.len() > 0 ==> ends_authority(rest[0])
        &&& self.path_and_query == Some(
            if before_fragment(rest).len() == 0 {
                seq!['/']
            } else {
                before_fragment(rest)
            },
        )
    }

    /// The components agree with the text of the URI: with a scheme it is made up of them, and
    /// without one it starts with a slash or is no longer than an authority.
    pub open spec fn agrees(self, text: Seq<char>) -> bool {
        if self.scheme is Some {
            exists|head: Seq<char>, rest: Seq<char>| self.splits(text, head, rest)
        } else {
            text.len() > 0 && (text[0] == '/' || within_authority(text))
        }
    }
}

/// Declares the error of `http` for text that is no URI.
#[verifier::external_type_specification]
#[verifier::external_body]
pub struct ExInvalidUri(hyper::http::uri::InvalidUri);

/// What `hyper::Uri::from_str` makes of `text`: the components of the URI, or nothing where it
/// rejects the text.
pub uninterp spec fn parsed_uri(text: Seq<char>) -> Option<UriView>;

/// `hyper::Uri::from_str`, with the components read off by the accessors of `hyper::Uri` and the
/// whole written by its `Display`. The result is named by [`parsed_uri`]. Of every URI it says
/// [`UriView::wf`] and, as far as [`UriView::agrees`] goes, how the components come from the text:
/// one with a scheme is scheme, `://`, authority, path and query, and fragment in this order.
#[verifier::external_body]
fn parse_uri(text: &str) -> (r: Result<Uri, hyper::http::uri::InvalidUri>)
    ensures
        match r {
            Ok(u) => parsed_uri(text@) == Some(u@) && u@.wf() && u@.agrees(text@),
            Err(_) => parsed_uri(text@) is None,
        },
{
    let uri = text.parse::<hyper::Uri>()?;
    Ok(Uri {
        text: uri.to_string(),
        scheme: uri.scheme_str().map(str::to_owned),
        authority: uri.authority().map(|a| a.as_str().to_owned()),
        host: uri.authority().map(|a| a.host().to_owned()),
        path: uri.path().to_owned(),
        path_and_query: uri.path_and_query().map(|p| p.as_str().to_owned()),
    })
}

impl Uri {
    /// Takes a URI apart; `None` where `text` is no URI.
    pub fn parse(text: &str) -> (r: Option<Uri>)
        ensures
            match r {
                Some(u) => parsed_uri(text@) == Some(u@) && u@.wf() && u@.agrees(text@),
                None => parsed_uri(text@) is None,
            },
    {
        match parse_uri(text) {
            Ok(u) => Some(u),
            Err(_) => None,
        }
    }
}

impl Clone for Uri {
    fn clone(&self) -> (r: Uri)
        ensures
            r == *self,
    {
        Uri {
            text: self.text.clone(),
            scheme: clone_opt(&self.scheme),
            authority: clone_opt(&self.authority),
            host: clone_opt(&self.host),
            path: self.path.clone(),
            path_and_query: clone_opt(&self.path_and_query),
        }
    }
}

/// The text of an absolute URI determines its scheme, up to the case of its letters, its authority and
/// its path and query.
pub proof fn lemma_absolute_components(
    uri: UriView,
    text: Seq<char>,
    scheme: Seq<char>,
    authority: Seq<char>,
    rest: Seq<char>,
)
    requires
        uri.wf(),
        uri.agrees(text),
        text == scheme + seq![':', '/', '/'] + authority + rest,
        !scheme.contains(':'),
        within_authority(scheme),
        within_authority(authority),
        rest.len() > 0 ==> ends_authority(rest[0]),
    ensures
        uri.scheme is Some,
        uri.authority == Some(authority),
        ascii_lowered(uri.scheme->0) == ascii_lowered(scheme),
        uri.path_and_query == Some(
            if before_fragment(rest).len() == 0 {
                seq!['/']
            } else {
                before_fragment(rest)
            },
        ),
{
    assert(text[scheme.len() as int + 1] == '/');
    assert(scheme.len() > 0 ==> text[0] == scheme[0]);
    assert(uri.scheme is Some);
    let (head, tail) = choose|head: Seq<char>, tail: Seq<char>| uri.splits(text, head, tail);
    let found = uri.authority->0;
    assert(text[scheme.len() as int] == ':');
    assert(text[head.len() as int] == ':');
    if head.len() < scheme.len() {
        assert(scheme[head.len() as int] == text[head.len() as int]);
    }
    if scheme.len() < head.len() {
        assert(head[scheme.len() as int] == text[scheme.len() as int]);
    }
    assert(head =~= scheme) by {
        assert(head =~= text.take(head.len() as int));
        assert(scheme =~= text.take(scheme.len() as int));
    }
    let start: int = scheme.len() as int + 3;
    assert(text.len() == start + found.len() + tail.len());
    assert(text.len() == start + authority.len() + rest.len());
    if found.len() < authority.len() {
        assert(tail[0] == text[start + found.len()]);
        assert(authority[found.len() as int] == text[start + found.len()]);
    }
    if authority.len() < found.len() {
        assert(rest[0] == text[start + authority.len()]);
        assert(found[authority.len() as int] == text[start + authority.len()]);
    }
    assert(found =~= text.subrange(start, start + found.len()));
    assert(authority =~= text.subrange(start, start + found.len()));
    assert(tail =~= text.skip(start + found.len()));
    assert(rest =~= text.skip(start + found.len()));
}

} // verus!
