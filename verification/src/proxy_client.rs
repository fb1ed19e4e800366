//! Whom the client for HTTPS upstreams and the control plane trusts.

use vstd::prelude::*;

use crate::error::{
    err, error, error_about, first_error, lemma_first_error_none, lemma_first_error_prefix,
    ErrorKind, ErrorView, GatewayError,
};
use crate::headers::opt_bytes;
use crate::settings::ProxyTlsSettings;
use crate::text::texts;

verus! {

/// Declares the store of trust anchors of `rustls`.
#[verifier::external_type_specification]
#[verifier::external_body]
pub struct ExRootCertStore(rustls::RootCertStore);

/// Declares the error of `rustls`.
#[verifier::external_type_specification]
#[verifier::external_body]
pub struct ExRustlsError(rustls::Error);

/// Declares the error of reading.
#[verifier::external_type_specification]
#[verifier::external_body]
pub struct ExIoError(std::io::Error);

/// A trust anchor: the parts of a root certificate that others are checked against.
#[derive(Debug)]
pub struct Anchor {
    /// The subject of the certificate, without the header around it.
    pub subject: Vec<u8>,
    /// Its public key.
    pub spki: Vec<u8>,
    /// The names that it may vouch for, where they are restricted.
    pub name_constraints: Option<Vec<u8>>,
}

/// The mathematical view of an [`Anchor`].
#[verifier::ext_equal]
pub struct AnchorView {
    pub subject: Seq<u8>,
    pub spki: Seq<u8>,
    pub name_constraints: Option<Seq<u8>>,
}

impl View for Anchor {
    type V = AnchorView;

    open spec fn view(&self) -> AnchorView {
        AnchorView {
            subject: self.subject@,
            spki: self.spki@,
            name_constraints: opt_bytes(self.name_constraints),
        }
    }
}

/// The views of a list of trust anchors.
pub open spec fn anchor_views(anchors: Seq<Anchor>) -> Seq<AnchorView> {
    Seq::new(anchors.len(), |i: int| anchors[i]@)
}

/// The contents of a list of byte strings.
pub open spec fn byte_strings(list: Seq<Vec<u8>>) -> Seq<Seq<u8>> {
    Seq::new(list.len(), |i: int| list[i]@)
}

/// The trust anchors in a store, in the order in which they were added.
pub uninterp spec fn store_anchors(store: rustls::RootCertStore) -> Seq<AnchorView>;

/// The trust anchor that `RootCertStore::add` makes of a certificate, or nothing where it rejects
/// it.
pub uninterp spec fn anchor_of(der: Seq<u8>) -> Option<AnchorView>;

/// The certificates that `rustls_pemfile::certs` finds in a PEM file, or nothing where it
/// rejects the file.
pub uninterp spec fn pem_certificates(pem: Seq<u8>) -> Option<Seq<Seq<u8>>>;

/// The public root at a position of `webpki_roots::TLS_SERVER_ROOTS`, or nothing behind its end.
pub uninterp spec fn public_root(i: nat) -> Option<AnchorView>;

/// `anchors` are the public roots, all of them, in order, and no others.
pub open spec fn are_public_roots(anchors: Seq<AnchorView>) -> bool {
    forall|i: nat| #[trigger]
        public_root(i) == (if i < anchors.len() {
            Some(anchors[i as int])
        } else {
            None
        })
}

/// No trust anchors.
pub open spec fn no_anchors() -> Seq<AnchorView> {
    Seq::empty()
}

/// `RootCertStore::empty`: a store without trust anchors.
#[verifier::external_body]
fn empty_store() -> (r: rustls::RootCertStore)
    ensures
        store_anchors(r) == no_anchors(),
{
    rustls::RootCertStore::empty()
}

/// `RootCertStore::is_empty`: whether there is no trust anchor.
#[verifier::external_body]
fn store_is_empty(store: &rustls::RootCertStore) -> (r: bool)
    ensures
        r == (store_anchors(*store).len() == 0),
{
    store.is_empty()
}

/// `RootCertStore::add`: adds the trust anchor of a certificate behind the others, or leaves the store
/// as it is where the certificate is malformed.
#[verifier::external_body]
fn add_certificate(store: &mut rustls::RootCertStore, der: &Vec<u8>) -> (r: Result<
    (),
    rustls::Error,
>)
    ensures
        match r {
            Ok(_) => anchor_of(der@) is Some && store_anchors(*final(store)) == store_anchors(
                *old(store),
            ).push(anchor_of(der@)->0),
            Err(_) => anchor_of(der@) is None && store_anchors(*final(store)) == store_anchors(
                *old(store),
            ),
        },
{
    store.add(&rustls::Certificate(der.clone()))
}

/// `RootCertStore::add_trust_anchors`, with anchors made by
/// `OwnedTrustAnchor::from_subject_spki_name_constraints`: adds them behind the others.
#[verifier::external_body]
fn add_trust_anchors(store: &mut rustls::RootCertStore, anchors: &Vec<Anchor>)
    ensures
        store_anchors(*final(store)) == store_anchors(*old(store)) + anchor_views(anchors@),
{
    store.add_trust_anchors(anchors.iter().map(|a| {
        rustls::OwnedTrustAnchor::from_subject_spki_name_constraints(
            a.subject.clone(),
            a.spki.clone(),
            a.name_constraints.clone(),
        )
    }));
}

/// `webpki_roots::TLS_SERVER_ROOTS`: the public roots, named one by one by [`public_root`], of which
/// there is at least one.
#[verifier::external_body]
fn public_roots() -> (r: Vec<Anchor>)
    ensures
        r@.len() > 0,
        forall|i: nat| #[trigger]
            public_root(i) == (if i < r@.len() {
                Some(r@[i as int]@)
            } else {
                None
            }),
{
    webpki_roots::TLS_SERVER_ROOTS.iter().map(|a| Anchor {
        subject: a.subject.to_vec(),
        spki: a.spki.to_vec(),
        name_constraints: a.name_constraints.map(|n| n.to_vec()),
    }).collect()
}

/// `rustls_pemfile::certs`: the certificates in a PEM file, in order. The result is named by
/// [`pem_certificates`].
#[verifier::external_body]
fn pem_certs(pem: &Vec<u8>) -> (r: Result<Vec<Vec<u8>>, std::io::Error>)
    ensures
        match r {
            Ok(certs) => pem_certificates(pem@) == Some(byte_strings(certs@)),
            Err(_) => pem_certificates(pem@) is None,
        },
{
    rustls_pemfile::certs(&mut pem.as_slice())
}

/// What is wrong with each of the certificates.
pub open spec fn certificate_errors(certs: Seq<Seq<u8>>) -> Seq<Option<ErrorView>> {
    Seq::new(
        certs.len(),
        |i: int|
            if anchor_of(certs[i]) is None {
                Some(
                    err(ErrorKind::TlsCertificate, "invalid peer certificate: BadEncoding"@),
                )
            } else {
                None
            },
    )
}

/// The trust anchors of certificates.
pub open spec fn certificate_anchors(certs: Seq<Seq<u8>>) -> Seq<AnchorView> {
    Seq::new(certs.len(), |i: int| anchor_of(certs[i])->0)
}

/// What is wrong with the certificates found in a CA file.
pub open spec fn found_error(path: Seq<char>, certs: Option<Seq<Seq<u8>>>) -> Option<ErrorView> {
    match certs {
        None => Some(
            err(ErrorKind::TlsPem, "proxy-tls: cannot read PEM from CA file "@ + path),
        ),
        Some(list) => if list.len() == 0 {
            Some(
                err(
                    ErrorKind::TlsNoCertificates,
                    "proxy-tls: no certificates found in CA file "@ + path,
                ),
            )
        } else {
            first_error(certificate_errors(list))
        },
    }
}

/// What is wrong with a CA file with the given contents, or that cannot be opened.
pub open spec fn ca_file_error(path: Seq<char>, contents: Option<Seq<u8>>) -> Option<ErrorView> {
    match contents {
        None => Some(err(ErrorKind::TlsOpen, "proxy-tls: cannot open CA file "@ + path)),
        Some(pem) => found_error(path, pem_certificates(pem)),
    }
}

/// The trust anchors in a CA file.
pub open spec fn ca_file_anchors(contents: Option<Seq<u8>>) -> Seq<AnchorView> {
    certificate_anchors(pem_certificates(contents->0)->0)
}

/// Adds the certificates found in a CA file to a store.
pub fn trust_certificates(
    path: &str,
    certs: Option<Vec<Vec<u8>>>,
    roots: &mut rustls::RootCertStore,
) -> (r: Result<(), GatewayError>)
    ensures
        match r {
            Ok(_) => {
                &&& certs is Some
                &&& found_error(path@, Some(byte_strings(certs->0@))) is None
                &&& store_anchors(*final(roots)) == store_anchors(*old(roots))
                    + certificate_anchors(byte_strings(certs->0@))
            },
            Err(e) => found_error(
                path@,
                match certs {
                    Some(list) => Some(byte_strings(list@)),
                    None => None,
                },
            ) == Some(e@),
        },
{
    let list = match certs {
        Some(list) => list,
        None => {
            return Err(
                error_about(ErrorKind::TlsPem, "proxy-tls: cannot read PEM from CA file ", path),
            );
        },
    };
    if list.len() == 0 {
        return Err(
            error_about(
                ErrorKind::TlsNoCertificates,
                "proxy-tls: no certificates found in CA file ",
                path,
            ),
        );
    }
    let ghost ders = byte_strings(list@);
    let ghost errors = certificate_errors(ders);
    let ghost before = store_anchors(*roots);
    let mut i: usize = 0;
    assert(errors.take(0) =~= Seq::empty());
    assert(before + certificate_anchors(ders).take(0) =~= before);
    while i < list.len()
        invariant
            i <= list.len(),
            list.len() > 0,
            certs == Some(list),
            ders == byte_strings(list@),
            errors == certificate_errors(ders),
            before == store_anchors(*old(roots)),
            first_error(errors.take(i as int)) is None,
            store_anchors(*roots) == before + certificate_anchors(ders).take(i as int),
        decreases list.len() - i,
    {
        assert(errors.take(i + 1).drop_last() =~= errors.take(i as int));
        match add_certificate(roots, &list[i]) {
            Ok(_) => {},
            Err(_) => {
                proof {
                    lemma_first_error_prefix(errors, i + 1);
                }
                return Err(
                    error(
                        ErrorKind::TlsCertificate,
                        "invalid peer certificate: BadEncoding".to_owned(),
                    ),
                );
            },
        }
        assert(before + certificate_anchors(ders).take(i + 1) =~= (before + certificate_anchors(
            ders,
        ).take(i as int)).push(anchor_of(ders[i as int])->0));
        i += 1;
    }
    assert(errors.take(i as int) =~= errors);
    assert(certificate_anchors(ders).take(i as int) =~= certificate_anchors(ders));
    Ok(())
}

/// Adds the certificates of a CA file to a store; `contents` is what is in the file, or nothing
/// where it cannot be opened.
pub fn load_pem_ca_file(
    path: &str,
    contents: &Option<Vec<u8>>,
    roots: &mut rustls::RootCertStore,
) -> (r: Result<(), GatewayError>)
    ensures
        match r {
            Ok(_) => {
                &&& ca_file_error(path@, opt_bytes(*contents)) is None
                &&& store_anchors(*final(roots)) == store_anchors(*old(roots)) + ca_file_anchors(
                    opt_bytes(*contents),
                )
            },
            Err(e) => ca_file_error(path@, opt_bytes(*contents)) == Some(e@),
        },
{
    let pem = match contents {
        Some(pem) => pem,
        None => {
            return Err(error_about(ErrorKind::TlsOpen, "proxy-tls: cannot open CA file ", path));
        },
    };
    let certs = match pem_certs(pem) {
        Ok(list) => Some(list),
        Err(_) => None,
    };
    trust_certificates(path, certs, roots)
}

/// What is wrong with each of the CA files.
pub open spec fn ca_errors(paths: Seq<Seq<char>>, contents: Seq<Option<Vec<u8>>>) -> Seq<
    Option<ErrorView>,
> {
    Seq::new(paths.len(), |i: int| ca_file_error(paths[i], opt_bytes(contents[i])))
}

/// The trust anchors of all CA files, in order.
pub open spec fn ca_anchors(contents: Seq<Option<Vec<u8>>>) -> Seq<AnchorView>
    decreases contents.len(),
{
    if contents.len() == 0 {
        Seq::empty()
    } else {
        ca_anchors(contents.drop_last()) + ca_file_anchors(opt_bytes(contents.last()))
    }
}

/// Fills a store with the given public roots and behind them the certificates of the CA files, whose
/// contents are given in the same order.
pub fn fill_root_cert_store(
    public: &Vec<Anchor>,
    ca_files: &Vec<String>,
    contents: &Vec<Option<Vec<u8>>>,
) -> (r: Result<rustls::RootCertStore, GatewayError>)
    requires
        contents@.len() == ca_files@.len(),
    ensures
        match r {
            Ok(store) => {
                &&& first_error(ca_errors(texts(ca_files@), contents@)) is None
                &&& store_anchors(store) == anchor_views(public@) + ca_anchors(contents@)
                &&& store_anchors(store).len() > 0
            },
            Err(e) => match first_error(ca_errors(texts(ca_files@), contents@)) {
                Some(f) => e@ == f,
                None => (anchor_views(public@) + ca_anchors(contents@)).len() == 0 && e@ == err(
                    ErrorKind::TlsNoAnchors,
                    "proxy-tls: no trust anchors loaded"@,
                ),
            },
        },
{
    let mut roots = empty_store();
    add_trust_anchors(&mut roots, public);
    let ghost errors = ca_errors(texts(ca_files@), contents@);
    let ghost start = anchor_views(public@);
    assert(store_anchors(roots) =~= start);
    let mut i: usize = 0;
    assert(errors.take(0) =~= Seq::empty());
    assert(contents@.take(0) =~= Seq::empty());
    assert(start + ca_anchors(contents@.take(0)) =~= start);
    while i < ca_files.len()
        invariant
            i <= ca_files.len(),
            contents@.len() == ca_files@.len(),
            errors == ca_errors(texts(ca_files@), contents@),
            first_error(errors.take(i as int)) is None,
            store_anchors(roots) == start + ca_anchors(contents@.take(i as int)),
        decreases ca_files.len() - i,
    {
        assert(errors.take(i + 1).drop_last() =~= errors.take(i as int));
        assert(contents@.take(i + 1).drop_last() =~= contents@.take(i as int));
        match load_pem_ca_file(&ca_files[i], &contents[i], &mut roots) {
            Ok(_) => {},
            Err(e) => {
                proof {
                    lemma_first_error_prefix(errors, i + 1);
                }
                return Err(e);
            },
        }
        assert(start + ca_anchors(contents@.take(i as int)) + ca_file_anchors(
            opt_bytes(contents@[i as int]),
        ) =~= start + ca_anchors(contents@.take(i + 1)));
        i += 1;
    }
    assert(errors.take(i as int) =~= errors);
    assert(contents@.take(i as int) =~= contents@);
    if store_is_empty(&roots) {
        return Err(
            error(ErrorKind::TlsNoAnchors, "proxy-tls: no trust anchors loaded".to_owned()),
        );
    }
    Ok(roots)
}

/// `store` has the public roots, where they are trusted, and behind them the certificates of the CA
/// files, and no others.
pub open spec fn trusts(
    store: rustls::RootCertStore,
    tls: ProxyTlsSettings,
    contents: Seq<Option<Vec<u8>>>,
) -> bool {
    exists|public: Seq<AnchorView>| #[trigger]
        (public + ca_anchors(contents)) == store_anchors(store) && (if tls.use_webpki_roots {
            are_public_roots(public)
        } else {
            public.len() == 0
        })
}

/// Loads the trust anchors that the settings ask for; `contents` holds what is in the CA files, in
/// their order.
pub fn load_root_cert_store(tls: &ProxyTlsSettings, contents: &Vec<Option<Vec<u8>>>) -> (r: Result<
    rustls::RootCertStore,
    GatewayError,
>)
    requires
        contents@.len() == tls.ca_files@.len(),
    ensures
        match r {
            Ok(store) => {
                &&& first_error(ca_errors(texts(tls.ca_files@), contents@)) is None
                &&& trusts(store, *tls, contents@)
                &&& store_anchors(store).len() > 0
            },
            Err(e) => match first_error(ca_errors(texts(tls.ca_files@), contents@)) {
                Some(f) => e@ == f,
                None => !tls.use_webpki_roots && ca_anchors(contents@).len() == 0 && e@ == err(
                    ErrorKind::TlsNoAnchors,
                    "proxy-tls: no trust anchors loaded"@,
                ),
            },
        },
{
    let public = if tls.use_webpki_roots {
        public_roots()
    } else {
        Vec::new()
    };
    let ghost views = anchor_views(public@);
    match fill_root_cert_store(&public, &tls.ca_files, contents) {
        Ok(store) => {
            assert((views + ca_anchors(contents@)) == store_anchors(store));
            Ok(store)
        },
        Err(e) => Err(e),
    }
}

/// Decides what the client trusts: without CA files the public roots alone, for which there is no
/// store to be made, and with them what [`load_root_cert_store`] loads.
pub fn https_trust(tls: &ProxyTlsSettings, contents: &Vec<Option<Vec<u8>>>) -> (r: Result<
    Option<rustls::RootCertStore>,
    GatewayError,
>)
    requires
        contents@.len() == tls.ca_files@.len(),
    ensures
        match r {
            Ok(None) => tls.ca_files@.len() == 0,
            Ok(Some(store)) => {
                &&& tls.ca_files@.len() > 0
                &&& first_error(ca_errors(texts(tls.ca_files@), contents@)) is None
                &&& trusts(store, *tls, contents@)
            },
            Err(e) => tls.ca_files@.len() > 0 && first_error(
                ca_errors(texts(tls.ca_files@), contents@),
            ) == Some(e@),
        },
{
    if tls.ca_files.len() == 0 {
        return Ok(None);
    }
    match load_root_cert_store(tls, contents) {
        Ok(store) => Ok(Some(store)),
        Err(e) => {
            proof {
                if first_error(ca_errors(texts(tls.ca_files@), contents@)) is None {
                    lemma_files_give_anchors(texts(tls.ca_files@), contents@);
                }
            }
            Err(e)
        },
    }
}

/// Every CA file without fault gives at least one trust anchor.
proof fn lemma_files_give_anchors(paths: Seq<Seq<char>>, contents: Seq<Option<Vec<u8>>>)
    requires
        paths.len() == contents.len(),
        paths.len() > 0,
        first_error(ca_errors(paths, contents)) is None,
    ensures
        ca_anchors(contents).len() > 0,
{
    lemma_first_error_none(ca_errors(paths, contents));
    let last = contents.len() - 1;
    assert(ca_errors(paths, contents)[last] is None);
}

/// With the public roots disabled, the certificates of the CA files are trusted and nothing else.
pub proof fn law_only_listed_cas_are_trusted(
    store: rustls::RootCertStore,
    tls: ProxyTlsSettings,
    contents: Seq<Option<Vec<u8>>>,
)
    requires
        trusts(store, tls, contents),
        !tls.use_webpki_roots,
    ensures
        store_anchors(store) == ca_anchors(contents),
{
    let public = choose|public: Seq<AnchorView>| #[trigger]
        (public + ca_anchors(contents)) == store_anchors(store) && (if tls.use_webpki_roots {
            are_public_roots(public)
        } else {
            public.len() == 0
        });
    assert(public + ca_anchors(contents) =~= ca_anchors(contents));
}

/// What is trusted is determined: two stores for the same settings and CA files hold the same trust
/// anchors in the same order; and where the public roots are trusted, every one of them is held.
pub proof fn law_trust_is_determined(
    a: rustls::RootCertStore,
    b: rustls::RootCertStore,
    tls: ProxyTlsSettings,
    contents: Seq<Option<Vec<u8>>>,
)
    requires
        trusts(a, tls, contents),
        trusts(b, tls, contents),
    ensures
        store_anchors(a) == store_anchors(b),
        tls.use_webpki_roots ==> forall|i: nat|
            #![trigger public_root(i)]
            public_root(i) is Some ==> i < store_anchors(a).len() && store_anchors(a)[i as int]
                == public_root(i)->0,
        forall|i: int|
            0 <= i < ca_anchors(contents).len() ==> store_anchors(a).contains(
                #[trigger] ca_anchors(contents)[i],
            ),
{
    let cas = ca_anchors(contents);
    let p = choose|public: Seq<AnchorView>| #[trigger]
        (public + cas) == store_anchors(a) && (if tls.use_webpki_roots {
            are_public_roots(public)
        } else {
            public.len() == 0
        });
    let q = choose|public: Seq<AnchorView>| #[trigger]
        (public + cas) == store_anchors(b) && (if tls.use_webpki_roots {
            are_public_roots(public)
        } else {
            public.len() == 0
        });
    if tls.use_webpki_roots {
        assert(public_root(p.len()) is None);
        assert(public_root(q.len()) is None);
        if q.len() < p.len() {
            assert(public_root(q.len()) == Some(p[q.len() as int]));
        }
        if p.len() < q.len() {
            assert(public_root(p.len()) == Some(q[p.len() as int]));
        }
        assert forall|i: int| 0 <= i < p.len() implies p[i] == q[i] by {
            assert(public_root(i as nat) == Some(p[i]));
        }
    }
    assert(p =~= q);
    assert forall|i: int| 0 <= i < cas.len() implies store_anchors(a).contains(
        #[trigger] cas[i],
    ) by {
        assert(store_anchors(a)[p.len() + i] == cas[i]);
    }
}

} // verus!
