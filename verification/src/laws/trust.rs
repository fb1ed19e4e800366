//! Whom the client trusts.

use vstd::prelude::*;

use crate::error::{ErrorKind, ErrorView};
use crate::laws::text::{law_first_error, law_prefix};
use crate::proxy_client::{
    anchor_of, are_public_roots, ca_anchors, ca_errors, ca_file_anchors, ca_file_error,
    certificate_anchors, certificate_errors, found_error, pem_certificates, public_root, store_anchors, trusts, AnchorView,
};
use crate::headers::opt_bytes;
use crate::settings::advanced::{tls_compiled, Surroundings};
use crate::settings::file;
use crate::settings::file::ProxyTls;
use crate::settings::tls::{
    ca_paths, expanded, missing_errors, named_ca_files, path_error, path_errors,
    public_roots_disabled, tls_error,
};
use crate::settings::ProxyTlsSettings;
use crate::text::texts;

verus! {

/// The home directory stands for a leading `~`, alone or before a slash, and for nothing else. Without
/// a home directory such a path is refused, and no other.
pub proof fn law_home_directory(path: Seq<char>, home: Option<Seq<char>>, rest: Seq<char>)
    ensures
        path != seq!['~'] && !seq!['~', '/'].is_prefix_of(path) ==> expanded(path, home) == path
            && path_error(path, home) is None,
        home is Some ==> path_error(path, home) is None,
        home is None && (path == seq!['~'] || seq!['~', '/'].is_prefix_of(path)) ==> path_error(
            path,
            home,
        ) is Some && path_error(path, home)->0.kind is TlsHome,
        home is Some && path == seq!['~'] ==> expanded(path, home) == home->0,
        home is Some && path == seq!['~', '/'] + rest ==> {
            &&& rest.len() > 0 && rest[0] == '/' ==> expanded(path, home) == rest
            &&& (rest.len() == 0 || rest[0] != '/') && home->0.len() > 0 && home->0.last() != '/'
                ==> expanded(path, home) == home->0 + seq!['/'] + rest
            &&& (rest.len() == 0 || rest[0] != '/') && (home->0.len() == 0 || home->0.last() == '/')
                ==> expanded(path, home) == home->0 + rest
        },
{
    reveal_strlit("~");
    reveal_strlit("~/");
    reveal_strlit("/");
    assert("~"@ =~= seq!['~']);
    assert("~/"@ =~= seq!['~', '/']);
    assert("/"@ =~= seq!['/']);
    law_prefix(path, "~/"@, rest);
    if path == seq!['~'] {
        assert(!seq!['~', '/'].is_prefix_of(path));
    }
}

/// The CA files that are used are the one of `ca-file`, where it is given, and behind it those of
/// `ca-files`, where they are, each with the home directory filled in.
pub proof fn law_ca_paths(file: ProxyTls, home: Option<Seq<char>>)
    ensures
        ({
            let one: int = if file.ca_file is Some {
                1
            } else {
                0
            };
            let more: int = match file.ca_files {
                Some(list) => list@.len() as int,
                None => 0,
            };
            &&& ca_paths(file, home).len() == one + more
            &&& file.ca_file is Some ==> ca_paths(file, home)[0] == expanded(file.ca_file->0@, home)
            &&& forall|i: int|
                one <= i < one + more ==> #[trigger] ca_paths(file, home)[i] == expanded(
                    file.ca_files->0@[i - one]@,
                    home,
                )
        }),
{
}

/// The public roots are left out exactly where `disable-webpki-roots` is given as true: they are trusted
/// where the option is missing and where it is given as false. Settings that are accepted trust
/// something, and every CA file that they name exists.
pub proof fn law_trust_settings(
    file: ProxyTls,
    home: Option<Seq<char>>,
    existing: Seq<Seq<char>>,
    tls: ProxyTlsSettings,
)
    requires
        tls_error(file, home, existing) is None,
        texts(tls.ca_files@) == ca_paths(file, home),
        tls.use_webpki_roots == !public_roots_disabled(file),
    ensures
        file.disable_webpki_roots is None ==> tls.use_webpki_roots,
        file.disable_webpki_roots == Some(false) ==> tls.use_webpki_roots,
        file.disable_webpki_roots == Some(true) ==> !tls.use_webpki_roots,
        tls.use_webpki_roots || tls.ca_files@.len() > 0,
        forall|i: int| 0 <= i < tls.ca_files@.len() ==> existing.contains(#[trigger] tls.ca_files@[i]@),
{
    crate::settings::tls::law_accepted_trust(file, home, existing);
    assert(texts(tls.ca_files@).len() == tls.ca_files@.len());
    assert forall|i: int| 0 <= i < tls.ca_files@.len() implies existing.contains(
        #[trigger] tls.ca_files@[i]@,
    ) by {
        assert(texts(tls.ca_files@)[i] == tls.ca_files@[i]@);
        assert(existing.contains(ca_paths(file, home)[i]));
    }
}

/// Trust settings that name the files `named` are refused where a path needs a home directory and there
/// is none, or else where the public roots are disabled and no CA file is named, or else where a CA file
/// does not exist, the first such one; and nowhere else.
pub proof fn law_trust_errors(
    file: ProxyTls,
    home: Option<Seq<char>>,
    existing: Seq<Seq<char>>,
    named: Seq<Seq<char>>,
)
    requires
        named == (match file.ca_file {
            Some(path) => seq![path@],
            None => Seq::empty(),
        }) + (match file.ca_files {
            Some(paths) => Seq::new(paths@.len(), |i: int| paths@[i]@),
            None => Seq::empty(),
        }),
    ensures
        tls_error(file, home, existing) is None <==> {
            &&& home is None ==> forall|i: int|
                0 <= i < named.len() ==> #[trigger] named[i] != seq!['~'] && !seq![
                    '~',
                    '/',
                ].is_prefix_of(named[i])
            &&& !(file.disable_webpki_roots == Some(true) && named.len() == 0)
            &&& forall|i: int|
                0 <= i < named.len() ==> existing.contains(expanded(#[trigger] named[i], home))
        },
        home is None && (exists|i: int|
            0 <= i < named.len() && (#[trigger] named[i] == seq!['~'] || seq![
                '~',
                '/',
            ].is_prefix_of(named[i]))) ==> tls_error(file, home, existing) is Some && tls_error(
            file,
            home,
            existing,
        )->0.kind is TlsHome,
        file.disable_webpki_roots == Some(true) && named.len() == 0 ==> tls_error(
            file,
            home,
            existing,
        ) == Some(
            ErrorView {
                kind: ErrorKind::TlsNoTrust,
                message:
                    "proxy-tls: disable-webpki-roots requires ca-file or ca-files (e.g. mkcert rootCA.pem)"@,
            },
        ),
        forall|n: int|
            (home is Some || forall|i: int|
                0 <= i < named.len() ==> #[trigger] named[i] != seq!['~'] && !seq![
                    '~',
                    '/',
                ].is_prefix_of(named[i])) && 0 <= n < named.len() && !existing.contains(
                expanded(#[trigger] named[n], home),
            ) && (forall|i: int|
                0 <= i < n ==> existing.contains(expanded(#[trigger] named[i], home)))
                ==> tls_error(file, home, existing) == Some(
                ErrorView {
                    kind: ErrorKind::TlsFileMissing,
                    message: "proxy-tls: CA file not found or not a regular file: "@ + expanded(
                        named[n],
                        home,
                    ),
                },
            ),
{
    assert(named =~= named_ca_files(file));
    let paths = path_errors(named, home);
    let gone = missing_errors(ca_paths(file, home), existing);
    law_first_error(paths);
    law_first_error(gone);
    assert forall|i: int| 0 <= i < named.len() implies (#[trigger] paths[i] is Some <==> home is None
        && (named[i] == seq!['~'] || seq!['~', '/'].is_prefix_of(named[i]))) && (paths[i] is Some
        ==> paths[i]->0.kind is TlsHome) by {
        law_home_directory(named[i], home, named[i]);
    }
    assert forall|i: int| 0 <= i < named.len() implies (#[trigger] gone[i] is Some
        <==> !existing.contains(expanded(named[i], home))) by {}
    if exists|i: int| 0 <= i < paths.len() && #[trigger] paths[i] is Some {
        let n = lemma_earliest(paths);
        assert(crate::error::first_error(paths) == paths[n]);
        assert(named[n] == named[n]);
    } else {
        assert forall|i: int| 0 <= i < named.len() && home is None implies #[trigger] named[i]
            != seq!['~'] && !seq!['~', '/'].is_prefix_of(named[i]) by {
            assert(!(paths[i] is Some));
        }
        assert(crate::error::first_error(paths) is None);
        if forall|i: int|
            0 <= i < named.len() ==> existing.contains(expanded(#[trigger] named[i], home)) {
            assert forall|i: int| 0 <= i < gone.len() implies #[trigger] gone[i] is None by {
                assert(existing.contains(expanded(named[i], home)));
            }
        } else {
            let i = choose|i: int|
                0 <= i < named.len() && !existing.contains(expanded(#[trigger] named[i], home));
            assert(gone[i] is Some);
        }
        assert forall|n: int|
            0 <= n < named.len() && !existing.contains(expanded(#[trigger] named[n], home)) && (
            forall|i: int|
                0 <= i < n ==> existing.contains(expanded(#[trigger] named[i], home))) implies
            crate::error::first_error(gone) == gone[n] by {
            assert(gone[n] is Some);
            assert forall|j: int| 0 <= j < n implies #[trigger] gone[j] is None by {
                assert(existing.contains(expanded(named[j], home)));
            }
        }
    }
}

proof fn lemma_earliest(errors: Seq<Option<ErrorView>>) -> (n: int)
    requires
        exists|i: int| 0 <= i < errors.len() && #[trigger] errors[i] is Some,
    ensures
        0 <= n < errors.len(),
        errors[n] is Some,
        forall|j: int| 0 <= j < n ==> #[trigger] errors[j] is None,
    decreases errors.len(),
{
    let front = errors.drop_last();
    if exists|i: int| 0 <= i < front.len() && #[trigger] front[i] is Some {
        let n = lemma_earliest(front);
        assert(errors[n] == front[n]);
        assert forall|j: int| 0 <= j < n implies #[trigger] errors[j] is None by {
            assert(front[j] is None);
        }
        n
    } else {
        let i = choose|i: int| 0 <= i < errors.len() && #[trigger] errors[i] is Some;
        if i < front.len() {
            assert(front[i] is Some);
        }
        assert forall|j: int| 0 <= j < errors.len() - 1 implies #[trigger] errors[j] is None by {
            assert(!(front[j] is Some));
        }
        errors.len() - 1
    }
}

/// The options of a configuration file without trust settings trust the public roots and no CA file;
/// those with them trust the public roots unless they disable them.
pub proof fn law_default_trust(
    out: ProxyTlsSettings,
    options: file::Advanced,
    around: Surroundings,
)
    requires
        tls_compiled(out, options, around),
    ensures
        options.proxy_tls is None ==> out.ca_files@.len() == 0 && out.use_webpki_roots,
        options.proxy_tls matches Some(tls) ==> out.use_webpki_roots == (tls.disable_webpki_roots
            != Some(true)),
        options.proxy_tls matches Some(tls) ==> texts(out.ca_files@) == ca_paths(
            tls,
            match around.home {
                Some(h) => Some(h@),
                None => None,
            },
        ),
{
}

/// A CA file is accepted exactly where it can be opened, is PEM, and holds at least one certificate,
/// all of them well-formed.
pub proof fn law_ca_file(path: Seq<char>, contents: Option<Seq<u8>>)
    ensures
        ca_file_error(path, contents) is None <==> {
            &&& contents is Some
            &&& pem_certificates(contents->0) is Some
            &&& pem_certificates(contents->0)->0.len() > 0
            &&& forall|j: int|
                0 <= j < pem_certificates(contents->0)->0.len() ==> anchor_of(
                    #[trigger] pem_certificates(contents->0)->0[j],
                ) is Some
        },
        contents is None ==> ca_file_error(path, contents) == Some(
            ErrorView {
                kind: ErrorKind::TlsOpen,
                message: "proxy-tls: cannot open CA file "@ + path,
            },
        ),
        contents is Some && pem_certificates(contents->0) is None ==> ca_file_error(path, contents)
            == Some(
            ErrorView {
                kind: ErrorKind::TlsPem,
                message: "proxy-tls: cannot read PEM from CA file "@ + path,
            },
        ),
        contents is Some && pem_certificates(contents->0) is Some && pem_certificates(
            contents->0,
        )->0.len() == 0 ==> ca_file_error(path, contents) == Some(
            ErrorView {
                kind: ErrorKind::TlsNoCertificates,
                message: "proxy-tls: no certificates found in CA file "@ + path,
            },
        ),
{
    if contents is Some && pem_certificates(contents->0) is Some {
        let certs = pem_certificates(contents->0)->0;
        let errors = certificate_errors(certs);
        law_first_error(errors);
        if forall|j: int| 0 <= j < certs.len() ==> anchor_of(#[trigger] certs[j]) is Some {
            assert forall|j: int| 0 <= j < errors.len() implies #[trigger] errors[j] is None by {
                assert(anchor_of(certs[j]) is Some);
            }
        }
        if forall|j: int| 0 <= j < errors.len() ==> #[trigger] errors[j] is None {
            assert forall|j: int| 0 <= j < certs.len() implies anchor_of(#[trigger] certs[j])
                is Some by {
                assert(errors[j] is None);
            }
        }
    }
}

proof fn lemma_ca_anchor(contents: Seq<Option<Vec<u8>>>, i: int, j: int)
    requires
        0 <= i < contents.len(),
        contents[i] is Some,
        pem_certificates(contents[i]->0@) is Some,
        0 <= j < pem_certificates(contents[i]->0@)->0.len(),
    ensures
        ca_anchors(contents).contains(anchor_of(pem_certificates(contents[i]->0@)->0[j])->0),
    decreases contents.len(),
{
    let front = ca_anchors(contents.drop_last());
    let last = ca_file_anchors(opt_bytes(contents.last()));
    let anchor = anchor_of(pem_certificates(contents[i]->0@)->0[j])->0;
    if i < contents.len() - 1 {
        lemma_ca_anchor(contents.drop_last(), i, j);
        let k = choose|k: int| 0 <= k < front.len() && front[k] == anchor;
        assert(ca_anchors(contents)[k] == anchor);
    } else {
        assert(last[j] == anchor);
        assert(ca_anchors(contents)[front.len() + j] == anchor);
    }
}

/// `anchor` is that of a certificate in one of the files.
pub open spec fn in_some_file(contents: Seq<Option<Vec<u8>>>, anchor: AnchorView) -> bool {
    exists|i: int, j: int|
        0 <= i < contents.len() && contents[i] is Some && 0 <= j < pem_certificates(
            contents[i]->0@,
        )->0.len() && anchor_of(#[trigger] pem_certificates(contents[i]->0@)->0[j]) == Some(anchor)
}

proof fn lemma_ca_anchor_source(paths: Seq<Seq<char>>, contents: Seq<Option<Vec<u8>>>, k: int)
    requires
        paths.len() == contents.len(),
        forall|i: int|
            0 <= i < contents.len() ==> ca_file_error(#[trigger] paths[i], opt_bytes(contents[i]))
                is None,
        0 <= k < ca_anchors(contents).len(),
    ensures
        in_some_file(contents, ca_anchors(contents)[k]),
    decreases contents.len(),
{
    let rest = contents.drop_last();
    let front = ca_anchors(rest);
    let anchor = ca_anchors(contents)[k];
    let n = contents.len() - 1;
    if k < front.len() {
        assert forall|i: int| 0 <= i < rest.len() implies ca_file_error(
            #[trigger] paths.drop_last()[i],
            opt_bytes(rest[i]),
        ) is None by {
            assert(ca_file_error(paths[i], opt_bytes(contents[i])) is None);
        }
        lemma_ca_anchor_source(paths.drop_last(), rest, k);
        assert(front[k] == anchor);
        let (i, j) = choose|i: int, j: int|
            0 <= i < rest.len() && rest[i] is Some && 0 <= j < pem_certificates(
                rest[i]->0@,
            )->0.len() && anchor_of(#[trigger] pem_certificates(rest[i]->0@)->0[j]) == Some(anchor);
        assert(rest[i] == contents[i]);
        assert(anchor_of(pem_certificates(contents[i]->0@)->0[j]) == Some(anchor));
    } else {
        assert(ca_file_error(paths[n], opt_bytes(contents[n])) is None);
        law_ca_file(paths[n], opt_bytes(contents[n]));
        let j = k - front.len();
        let certs = pem_certificates(contents[n]->0@)->0;
        assert(anchor_of(certs[j]) is Some);
        assert(ca_file_anchors(opt_bytes(contents.last()))[j] == anchor);
        assert(anchor_of(pem_certificates(contents[n]->0@)->0[j]) == Some(anchor));
    }
}

/// What is trusted: every certificate of every CA file, every public root where the public roots are
/// trusted, and nothing else.
pub proof fn law_trusted_certificates(
    store: rustls::RootCertStore,
    tls: ProxyTlsSettings,
    contents: Seq<Option<Vec<u8>>>,
)
    requires
        trusts(store, tls, contents),
        contents.len() == tls.ca_files@.len(),
        crate::error::first_error(ca_errors(texts(tls.ca_files@), contents)) is None,
    ensures
        forall|i: int, j: int|
            0 <= i < contents.len() && 0 <= j < pem_certificates(contents[i]->0@)->0.len()
                ==> store_anchors(store).contains(
                anchor_of(#[trigger] pem_certificates(contents[i]->0@)->0[j])->0,
            ),
        tls.use_webpki_roots ==> forall|n: nat|
            #![trigger public_root(n)]
            public_root(n) is Some ==> store_anchors(store).contains(public_root(n)->0),
        forall|k: int|
            0 <= k < store_anchors(store).len() ==> in_some_file(
                contents,
                #[trigger] store_anchors(store)[k],
            ) || tls.use_webpki_roots && exists|n: nat| #[trigger]
                public_root(n) == Some(store_anchors(store)[k]),
{
    let paths = texts(tls.ca_files@);
    let errors = ca_errors(paths, contents);
    law_first_error(errors);
    let cas = ca_anchors(contents);
    let public = choose|public: Seq<AnchorView>| #[trigger]
        (public + cas) == store_anchors(store) && (if tls.use_webpki_roots {
            are_public_roots(public)
        } else {
            public.len() == 0
        });
    assert forall|i: int| 0 <= i < contents.len() implies ca_file_error(
        #[trigger] paths[i],
        opt_bytes(contents[i]),
    ) is None by {
        assert(errors[i] is None);
    }
    assert forall|i: int, j: int|
        0 <= i < contents.len() && 0 <= j < pem_certificates(contents[i]->0@)->0.len() implies
        store_anchors(store).contains(
        anchor_of(#[trigger] pem_certificates(contents[i]->0@)->0[j])->0,
    ) by {
        law_ca_file(paths[i], opt_bytes(contents[i]));
        lemma_ca_anchor(contents, i, j);
        let anchor = anchor_of(pem_certificates(contents[i]->0@)->0[j])->0;
        let k = choose|k: int| 0 <= k < cas.len() && cas[k] == anchor;
        assert(store_anchors(store)[public.len() + k] == anchor);
    }
    if tls.use_webpki_roots {
        assert forall|n: nat|
            #![trigger public_root(n)]
            public_root(n) is Some implies store_anchors(store).contains(public_root(n)->0) by {
            assert(store_anchors(store)[n as int] == public_root(n)->0);
        }
    }
    assert forall|k: int| 0 <= k < store_anchors(store).len() implies in_some_file(
        contents,
        #[trigger] store_anchors(store)[k],
    ) || tls.use_webpki_roots && exists|n: nat| #[trigger]
        public_root(n) == Some(store_anchors(store)[k]) by {
        if k < public.len() {
            assert(public_root(k as nat) == Some(public[k]));
        } else {
            lemma_ca_anchor_source(paths, contents, k - public.len());
            assert(store_anchors(store)[k] == cas[k - public.len()]);
        }
    }
}

/// The first CA file that is refused decides the error.
pub proof fn law_first_faulty_ca_file(
    paths: Seq<Seq<char>>,
    contents: Seq<Option<Vec<u8>>>,
    n: int,
)
    requires
        paths.len() == contents.len(),
        0 <= n < paths.len(),
        ca_file_error(paths[n], opt_bytes(contents[n])) is Some,
        forall|i: int|
            0 <= i < n ==> ca_file_error(#[trigger] paths[i], opt_bytes(contents[i])) is None,
    ensures
        crate::error::first_error(ca_errors(paths, contents)) == ca_file_error(
            paths[n],
            opt_bytes(contents[n]),
        ),
{
    let errors = ca_errors(paths, contents);
    law_first_error(errors);
    assert(errors[n] is Some);
    assert forall|i: int| 0 <= i < n implies #[trigger] errors[i] is None by {
        assert(ca_file_error(paths[i], opt_bytes(contents[i])) is None);
    }
}

/// Certificates that were found in a CA file are accepted exactly where there is at least one and all
/// of them are well-formed, and then each is a trust anchor, in their order.
pub proof fn law_found_certificates(path: Seq<char>, certs: Option<Seq<Seq<u8>>>)
    ensures
        found_error(path, certs) is None <==> certs is Some && certs->0.len() > 0 && forall|j: int|
            0 <= j < certs->0.len() ==> anchor_of(#[trigger] certs->0[j]) is Some,
        certs matches Some(list) ==> certificate_anchors(list) == list.map_values(
            |der: Seq<u8>| anchor_of(der)->0,
        ),
{
    if let Some(list) = certs {
        let errors = certificate_errors(list);
        law_first_error(errors);
        assert(certificate_anchors(list) =~= list.map_values(|der: Seq<u8>| anchor_of(der)->0));
        if forall|j: int| 0 <= j < list.len() ==> anchor_of(#[trigger] list[j]) is Some {
            assert forall|j: int| 0 <= j < errors.len() implies #[trigger] errors[j] is None by {
                assert(anchor_of(list[j]) is Some);
            }
        }
        if forall|j: int| 0 <= j < errors.len() ==> #[trigger] errors[j] is None {
            assert forall|j: int| 0 <= j < list.len() implies anchor_of(#[trigger] list[j]) is Some by {
                assert(errors[j] is None);
            }
        }
    }
}

} // verus!
