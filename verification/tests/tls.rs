use weavegate::error::ErrorKind;
use weavegate::proxy_client::{
    fill_root_cert_store, https_trust, load_pem_ca_file, load_root_cert_store, trust_certificates,
    Anchor,
};
use weavegate::settings::file::ProxyTls;
use weavegate::settings::tls::{candidate_ca_files, expand_tls_path};
use weavegate::settings::ProxyTlsSettings;

const ROOT_PEM: &str = "-----BEGIN CERTIFICATE-----
MIICGTCCAZ+gAwIBAgIQCeCTZaz32ci5PhwLBCou8zAKBggqhkjOPQQDAzBOMQsw
CQYDVQQGEwJVUzEXMBUGA1UEChMORGlnaUNlcnQsIEluYy4xJjAkBgNVBAMTHURp
Z2lDZXJ0IFRMUyBFQ0MgUDM4NCBSb290IEc1MB4XDTIxMDExNTAwMDAwMFoXDTQ2
MDExNDIzNTk1OVowTjELMAkGA1UEBhMCVVMxFzAVBgNVBAoTDkRpZ2lDZXJ0LCBJ
bmMuMSYwJAYDVQQDEx1EaWdpQ2VydCBUTFMgRUNDIFAzODQgUm9vdCBHNTB2MBAG
ByqGSM49AgEGBSuBBAAiA2IABMFEoc8Rl1Ca3iOCNQfN0MsYndLxf3c1TzvdlHJS
7cI7+Oz6e2tYIOyZrsn8aLN1udsJ7MgT9U7GCh1mMEy7H0cKPGEQQil8pQgO4CLp
0zVozptjn4S1mU1YoI71VOeVyaNCMEAwHQYDVR0OBBYEFMFRRVBZqz7nLFr6ICIS
B4CIfBFqMA4GA1UdDwEB/wQEAwIBhjAPBgNVHRMBAf8EBTADAQH/MAoGCCqGSM49
BAMDA2gAMGUCMQCJao1H5+z8blUD2WdsJk6Dxv3J+ysTvLd6jLRl0mlpYxNjOyZQ
LgGheQaRnUi/wr4CMEfDFXuxoJGZSZOoPHzoRgaLLPIxAJSdYsiJvRmEFOml+wG4
DXZDjC5Ty3zfDBeWUA==
-----END CERTIFICATE-----
";

const NO_CERTIFICATE_PEM: &str = "-----BEGIN CERTIFICATE-----
AAAA
-----END CERTIFICATE-----
";

fn pem(text: &str) -> Option<Vec<u8>> {
    Some(text.as_bytes().to_vec())
}

fn tls(files: &[&str], use_webpki_roots: bool) -> ProxyTlsSettings {
    ProxyTlsSettings {
        ca_files: files.iter().map(|s| s.to_string()).collect(),
        use_webpki_roots,
    }
}

fn file(ca_file: Option<&str>, ca_files: Option<Vec<&str>>, disable: Option<bool>) -> ProxyTls {
    ProxyTls {
        ca_file: ca_file.map(str::to_string),
        ca_files: ca_files.map(|v| v.into_iter().map(str::to_string).collect()),
        disable_webpki_roots: disable,
    }
}

#[test]
fn proxy_tls_requires_ca_when_webpki_disabled() {
    let tls = ProxyTls { ca_file: None, ca_files: None, disable_webpki_roots: Some(true) };
    assert!(ProxyTlsSettings::from_file(&tls, None, &vec![]).is_err());
}

#[test]
fn disabled_roots_message() {
    let e = ProxyTlsSettings::from_file(&file(None, Some(vec![]), Some(true)), None, &vec![])
        .err()
        .unwrap();
    assert_eq!(e.kind, ErrorKind::TlsNoTrust);
    assert_eq!(
        e.message,
        "proxy-tls: disable-webpki-roots requires ca-file or ca-files (e.g. mkcert rootCA.pem)"
    );
}

#[test]
fn public_roots_are_trusted_by_default() {
    let t = ProxyTlsSettings::from_file(&file(None, None, None), None, &vec![]).unwrap();
    assert!(t.use_webpki_roots);
    assert!(t.ca_files.is_empty());
    assert!(ProxyTlsSettings::default().use_webpki_roots);
    assert!(ProxyTlsSettings::default().ca_files.is_empty());
}

#[test]
fn ca_files_in_order() {
    let existing = vec!["/home/u/ca.pem".to_string(), "/b.pem".to_string(), "c".to_string()];
    let f = file(Some("~/ca.pem"), Some(vec!["/b.pem", "c"]), Some(true));
    let t = ProxyTlsSettings::from_file(&f, Some("/home/u"), &existing).unwrap();
    assert_eq!(t.ca_files, vec!["/home/u/ca.pem", "/b.pem", "c"]);
    assert!(!t.use_webpki_roots);
    assert_eq!(candidate_ca_files(&f, Some("/home/u")).unwrap(), t.ca_files);
}

#[test]
fn ca_files_must_exist() {
    let f = file(Some("/a"), Some(vec!["/b", "/c"]), None);
    let e = ProxyTlsSettings::from_file(&f, None, &vec!["/a".to_string()]).err().unwrap();
    assert_eq!(e.kind, ErrorKind::TlsFileMissing);
    assert_eq!(e.message, "proxy-tls: CA file not found or not a regular file: /b");
}

#[test]
fn home_must_be_known() {
    let e = expand_tls_path("~/x", None).err().unwrap();
    assert_eq!(e.kind, ErrorKind::TlsHome);
    assert_eq!(e.message, "proxy-tls: cannot expand '~/' (HOME not set)");
    let e = expand_tls_path("~", None).err().unwrap();
    assert_eq!(e.message, "proxy-tls: cannot expand '~' (HOME not set)");
    let f = file(Some("/missing"), Some(vec!["~/x"]), None);
    let e = ProxyTlsSettings::from_file(&f, None, &vec![]).err().unwrap();
    assert_eq!(e.kind, ErrorKind::TlsHome);
}

#[test]
fn expanded_paths_agree_with_std() {
    for home in ["/home/u", "/", "", "rel", "/home/u/"] {
        for path in ["~/", "~/a", "~/a/b", "~//etc", "~", "~user/x", "/abs", "", "a/~/b"] {
            let expected = match path.strip_prefix("~/") {
                Some(rest) => std::path::Path::new(home).join(rest).to_str().unwrap().to_string(),
                None if path == "~" => home.to_string(),
                None => path.to_string(),
            };
            assert_eq!(expand_tls_path(path, Some(home)).unwrap(), expected);
        }
    }
}

#[test]
fn only_listed_cas_are_trusted() {
    let t = tls(&["ca.pem"], false);
    let store = load_root_cert_store(&t, &vec![pem(ROOT_PEM)]).unwrap();
    assert_eq!(store.len(), 1);
    let two = [ROOT_PEM, ROOT_PEM].concat();
    let store = load_root_cert_store(&t, &vec![pem(&two)]).unwrap();
    assert_eq!(store.len(), 2);
}

#[test]
fn listed_cas_are_added_to_public_roots() {
    let t = tls(&["a", "b"], true);
    let store = load_root_cert_store(&t, &vec![pem(ROOT_PEM), pem(ROOT_PEM)]).unwrap();
    assert_eq!(store.len(), webpki_roots::TLS_SERVER_ROOTS.len() + 2);
    for (i, root) in webpki_roots::TLS_SERVER_ROOTS.iter().enumerate() {
        let own = rustls::OwnedTrustAnchor::from_subject_spki_name_constraints(
            root.subject,
            root.spki,
            root.name_constraints,
        );
        assert_eq!(format!("{:?}", store.roots[i]), format!("{own:?}"));
    }
    let last = store.roots[store.len() - 1].subject().as_ref();
    assert!(last.ends_with(webpki_roots::TLS_SERVER_ROOTS[0].subject));
}

#[test]
fn anchors_are_kept_as_given() {
    let anchors = vec![Anchor {
        subject: b"subject".to_vec(),
        spki: b"key".to_vec(),
        name_constraints: Some(b"names".to_vec()),
    }];
    let store = fill_root_cert_store(&anchors, &vec![], &vec![]).unwrap();
    assert_eq!(store.len(), 1);
    let own = rustls::OwnedTrustAnchor::from_subject_spki_name_constraints(
        b"subject".to_vec(),
        b"key".to_vec(),
        Some(b"names".to_vec()),
    );
    assert_eq!(format!("{:?}", store.roots[0]), format!("{own:?}"));
}

#[test]
fn ca_file_errors() {
    let t = tls(&["ca.pem"], true);
    let e = load_root_cert_store(&t, &vec![None]).err().unwrap();
    assert_eq!(e.kind, ErrorKind::TlsOpen);
    assert_eq!(e.message, "proxy-tls: cannot open CA file ca.pem");
    let e = load_root_cert_store(&t, &vec![pem("-----BEGIN CERTIFICATE-----\n")]).err().unwrap();
    assert_eq!(e.kind, ErrorKind::TlsPem);
    assert_eq!(e.message, "proxy-tls: cannot read PEM from CA file ca.pem");
    let e = load_root_cert_store(&t, &vec![pem("nothing here")]).err().unwrap();
    assert_eq!(e.kind, ErrorKind::TlsNoCertificates);
    assert_eq!(e.message, "proxy-tls: no certificates found in CA file ca.pem");
    let e = load_root_cert_store(&t, &vec![pem(NO_CERTIFICATE_PEM)]).err().unwrap();
    assert_eq!(e.kind, ErrorKind::TlsCertificate);
    assert_eq!(e.message, "invalid peer certificate: BadEncoding");
}

#[test]
fn certificate_error_is_the_one_of_rustls() {
    let mut store = rustls::RootCertStore::empty();
    let e = store.add(&rustls::Certificate(vec![0, 0, 0])).err().unwrap();
    assert_eq!(e.to_string(), "invalid peer certificate: BadEncoding");
    let e = trust_certificates("p", Some(vec![vec![0, 0, 0]]), &mut store).err().unwrap();
    assert_eq!(e.message, "invalid peer certificate: BadEncoding");
}

#[test]
fn the_first_faulty_ca_file_counts() {
    let t = tls(&["a", "b", "c"], false);
    let e = load_root_cert_store(&t, &vec![pem(ROOT_PEM), pem(""), None]).err().unwrap();
    assert_eq!(e.kind, ErrorKind::TlsNoCertificates);
    assert_eq!(e.message, "proxy-tls: no certificates found in CA file b");
}

#[test]
fn some_anchor_is_needed() {
    let e = load_root_cert_store(&tls(&[], false), &vec![]).err().unwrap();
    assert_eq!(e.kind, ErrorKind::TlsNoAnchors);
    assert_eq!(e.message, "proxy-tls: no trust anchors loaded");
}

#[test]
fn without_ca_files_no_store_is_made() {
    assert!(https_trust(&tls(&[], true), &vec![]).unwrap().is_none());
    let store = https_trust(&tls(&["a"], false), &vec![pem(ROOT_PEM)]).unwrap().unwrap();
    assert_eq!(store.len(), 1);
    assert!(https_trust(&tls(&["a"], false), &vec![None]).is_err());
}

#[test]
fn certificates_are_added_behind_others() {
    let mut store = rustls::RootCertStore::empty();
    load_pem_ca_file("a", &pem(ROOT_PEM), &mut store).unwrap();
    load_pem_ca_file("b", &pem(ROOT_PEM), &mut store).unwrap();
    assert_eq!(store.len(), 2);
    assert!(trust_certificates("c", None, &mut store).is_err());
    assert!(trust_certificates("c", Some(vec![]), &mut store).is_err());
}
