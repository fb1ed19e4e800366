//! Trust settings: which CA files are used, and whether the public roots are.

use vstd::prelude::*;

use crate::error::{
    err, error, error_about, first_error, lemma_first_error_none, lemma_first_error_prefix,
    ErrorKind, ErrorView, GatewayError,
};
use crate::settings::file::ProxyTls;
use crate::settings::ProxyTlsSettings;
use crate::text::{
    begins_with, chars_of, lists, opt_str, same_text, starts_with_char, strip_prefix, texts,
    without_prefix,
};

verus! {

/// The path `rest` seen from the directory `base`.
pub open spec fn path_joined(base: Seq<char>, rest: Seq<char>) -> Seq<char> {
    if rest.len() > 0 && rest[0] == '/' {
        rest
    } else if base.len() == 0 || base.last() == '/' {
        base + rest
    } else {
        base + "/"@ + rest
    }
}

/// Joins two paths.
fn join_path(base: &str, rest: &str) -> (r: String)
    ensures
        r@ == path_joined(base@, rest@),
{
    if starts_with_char(rest, '/') {
        return rest.to_owned();
    }
    let chars = chars_of(base);
    let mut out = base.to_owned();
    if chars.len() > 0 && chars[chars.len() - 1] != '/' {
        out.append("/");
    }
    out.append(rest);
    out
}

/// What is wrong with a path: it starts in the home directory, and that is unknown.
pub open spec fn path_error(path: Seq<char>, home: Option<Seq<char>>) -> Option<ErrorView> {
    if home is Some {
        None
    } else if begins_with(path, "~/"@) {
        Some(err(ErrorKind::TlsHome, "proxy-tls: cannot expand '~/' (HOME not set)"@))
    } else if path == "~"@ {
        Some(err(ErrorKind::TlsHome, "proxy-tls: cannot expand '~' (HOME not set)"@))
    } else {
        None
    }
}

/// A path with the home directory in place of a leading `~`.
pub open spec fn expanded(path: Seq<char>, home: Option<Seq<char>>) -> Seq<char> {
    match without_prefix(path, "~/"@) {
        Some(rest) => path_joined(home->0, rest),
        None => if path == "~"@ {
            home->0
        } else {
            path
        },
    }
}

/// Puts the home directory in place of a leading `~`.
pub fn expand_tls_path(path: &str, home: Option<&str>) -> (r: Result<String, GatewayError>)
    ensures
        match r {
            Ok(p) => path_error(path@, opt_str(home)) is None && p@ == expanded(
                path@,
                opt_str(home),
            ),
            Err(e) => path_error(path@, opt_str(home)) == Some(e@),
        },
{
    if let Some(rest) = strip_prefix(path, "~/") {
        return match home {
            Some(h) => Ok(join_path(h, &rest)),
            None => Err(
                error(
                    ErrorKind::TlsHome,
                    "proxy-tls: cannot expand '~/' (HOME not set)".to_owned(),
                ),
            ),
        };
    }
    if same_text(path, "~") {
        return match home {
            Some(h) => Ok(h.to_owned()),
            None => Err(
                error(
                    ErrorKind::TlsHome,
                    "proxy-tls: cannot expand '~' (HOME not set)".to_owned(),
                ),
            ),
        };
    }
    Ok(path.to_owned())
}

/// The CA files that are named, in order.
pub open spec fn named_ca_files(file: ProxyTls) -> Seq<Seq<char>> {
    (match file.ca_file {
        Some(path) => seq![path@],
        None => Seq::empty(),
    }) + (match file.ca_files {
        Some(paths) => texts(paths@),
        None => Seq::empty(),
    })
}

/// What is wrong with each of the paths.
pub open spec fn path_errors(paths: Seq<Seq<char>>, home: Option<Seq<char>>) -> Seq<
    Option<ErrorView>,
> {
    Seq::new(paths.len(), |i: int| path_error(paths[i], home))
}

/// The paths with the home directory filled in.
pub open spec fn expanded_all(paths: Seq<Seq<char>>, home: Option<Seq<char>>) -> Seq<Seq<char>> {
    Seq::new(paths.len(), |i: int| expanded(paths[i], home))
}

/// The paths of the CA files that are used.
pub open spec fn ca_paths(file: ProxyTls, home: Option<Seq<char>>) -> Seq<Seq<char>> {
    expanded_all(named_ca_files(file), home)
}

/// The public roots are not to be trusted.
pub open spec fn public_roots_disabled(file: ProxyTls) -> bool {
    file.disable_webpki_roots == Some(true)
}

/// What is wrong with each path to a CA file, where only the given files exist.
pub open spec fn missing_errors(paths: Seq<Seq<char>>, regular_files: Seq<Seq<char>>) -> Seq<
    Option<ErrorView>,
> {
    Seq::new(
        paths.len(),
        |i: int|
            if regular_files.contains(paths[i]) {
                None
            } else {
                Some(
                    err(
                        ErrorKind::TlsFileMissing,
                        "proxy-tls: CA file not found or not a regular file: "@ + paths[i],
                    ),
                )
            },
    )
}

/// What is wrong with trust settings.
pub open spec fn tls_error(
    file: ProxyTls,
    home: Option<Seq<char>>,
    regular_files: Seq<Seq<char>>,
) -> Option<ErrorView> {
    match first_error(path_errors(named_ca_files(file), home)) {
        Some(e) => Some(e),
        None => if public_roots_disabled(file) && named_ca_files(file).len() == 0 {
            Some(
                err(
                    ErrorKind::TlsNoTrust,
                    "proxy-tls: disable-webpki-roots requires ca-file or ca-files (e.g. mkcert rootCA.pem)"@,
                ),
            )
        } else {
            first_error(missing_errors(ca_paths(file, home), regular_files))
        },
    }
}

fn push_expanded(out: &mut Vec<String>, path: &str, home: Option<&str>) -> (r: Result<
    (),
    GatewayError,
>)
    ensures
        match r {
            Ok(_) => path_error(path@, opt_str(home)) is None && texts(final(out)@) == texts(
                old(out)@,
            ).push(expanded(path@, opt_str(home))),
            Err(e) => path_error(path@, opt_str(home)) == Some(e@),
        },
{
    match expand_tls_path(path, home) {
        Ok(p) => {
            let ghost before = out@;
            out.push(p);
            assert(texts(out@) =~= texts(before).push(p@));
            Ok(())
        },
        Err(e) => Err(e),
    }
}

/// Finds the paths of the CA files that trust settings name.
pub fn candidate_ca_files(file: &ProxyTls, home: Option<&str>) -> (r: Result<
    Vec<String>,
    GatewayError,
>)
    ensures
        match r {
            Ok(paths) => first_error(path_errors(named_ca_files(*file), opt_str(home))) is None
                && texts(paths@) == ca_paths(*file, opt_str(home)),
            Err(e) => first_error(path_errors(named_ca_files(*file), opt_str(home))) == Some(e@),
        },
{
    let ghost named = named_ca_files(*file);
    let ghost at = opt_str(home);
    let ghost errors = path_errors(named, at);
    let mut out: Vec<String> = Vec::new();
    assert(errors.take(0) =~= Seq::empty());
    assert(texts(out@) =~= expanded_all(named, at).take(0));
    if let Some(path) = &file.ca_file {
        assert(named[0] == path@);
        assert(errors.take(1).drop_last() =~= errors.take(0));
        match push_expanded(&mut out, path, home) {
            Ok(_) => {
                assert(texts(out@) =~= expanded_all(named, at).take(1));
            },
            Err(e) => {
                proof {
                    lemma_first_error_prefix(errors, 1);
                }
                return Err(e);
            },
        }
    }
    if let Some(paths) = &file.ca_files {
        let ghost offset = out@.len();
        let mut i: usize = 0;
        while i < paths.len()
            invariant
                i <= paths.len(),
                at == opt_str(home),
                named == named_ca_files(*file),
                errors == path_errors(named, at),
                file.ca_files == Some(*paths),
                offset == (if file.ca_file is Some {
                    1nat
                } else {
                    0nat
                }),
                out@.len() == offset + i,
                texts(out@) == expanded_all(named, at).take(offset + i),
                first_error(errors.take(offset + i)) is None,
            decreases paths.len() - i,
        {
            let ghost n = offset + i;
            assert(named[n] == paths@[i as int]@);
            assert(errors.take(n + 1).drop_last() =~= errors.take(n));
            match push_expanded(&mut out, &paths[i], home) {
                Ok(_) => {
                    assert(texts(out@) =~= expanded_all(named, at).take(n + 1));
                },
                Err(e) => {
                    proof {
                        lemma_first_error_prefix(errors, n + 1);
                    }
                    return Err(e);
                },
            }
            i += 1;
        }
    }
    assert(errors.take(out@.len() as int) =~= errors);
    assert(expanded_all(named, at).take(out@.len() as int) =~= expanded_all(named, at));
    Ok(out)
}

impl ProxyTlsSettings {
    /// Builds runtime TLS settings from file `[advanced.proxy-tls]`; `home` is the home directory,
    /// and of the CA files those exist that `regular_files` lists.
    pub fn from_file(file: &ProxyTls, home: Option<&str>, regular_files: &Vec<String>) -> (r: Result<
        ProxyTlsSettings,
        GatewayError,
    >)
        ensures
            match r {
                Ok(tls) => {
                    &&& tls_error(*file, opt_str(home), texts(regular_files@)) is None
                    &&& texts(tls.ca_files@) == ca_paths(*file, opt_str(home))
                    &&& tls.use_webpki_roots == !public_roots_disabled(*file)
                    &&& tls.use_webpki_roots == (file.disable_webpki_roots != Some(true))
                },
                Err(e) => tls_error(*file, opt_str(home), texts(regular_files@)) == Some(e@),
            },
    {
        let ca_files = match candidate_ca_files(file, home) {
            Ok(paths) => paths,
            Err(e) => {
                return Err(e);
            },
        };
        let use_webpki_roots = match file.disable_webpki_roots {
            Some(disabled) => !disabled,
            None => true,
        };
        assert(texts(ca_files@).len() == named_ca_files(*file).len());
        if !use_webpki_roots && ca_files.len() == 0 {
            return Err(
                error(
                    ErrorKind::TlsNoTrust,
                    "proxy-tls: disable-webpki-roots requires ca-file or ca-files (e.g. mkcert rootCA.pem)".to_owned(),
                ),
            );
        }
        let ghost errors = missing_errors(texts(ca_files@), texts(regular_files@));
        let mut i: usize = 0;
        assert(errors.take(0) =~= Seq::empty());
        while i < ca_files.len()
            invariant
                i <= ca_files.len(),
                errors == missing_errors(texts(ca_files@), texts(regular_files@)),
                first_error(errors.take(i as int)) is None,
                first_error(errors) is Some ==> tls_error(
                    *file,
                    opt_str(home),
                    texts(regular_files@),
                ) == first_error(errors),
            decreases ca_files.len() - i,
        {
            assert(errors.take(i + 1).drop_last() =~= errors.take(i as int));
            assert(texts(ca_files@)[i as int] == ca_files@[i as int]@);
            if !lists(regular_files, &ca_files[i]) {
                proof {
                    lemma_first_error_prefix(errors, i + 1);
                }
                return Err(
                    error_about(
                        ErrorKind::TlsFileMissing,
                        "proxy-tls: CA file not found or not a regular file: ",
                        &ca_files[i],
                    ),
                );
            }
            i += 1;
        }
        assert(errors.take(i as int) =~= errors);
        Ok(ProxyTlsSettings { ca_files, use_webpki_roots })
    }
}

/// Trust settings that are accepted trust something: the public roots, or at least one CA file, and
/// with the public roots disabled CA files alone; and every CA file exists.
pub proof fn law_accepted_trust(
    file: ProxyTls,
    home: Option<Seq<char>>,
    regular_files: Seq<Seq<char>>,
)
    requires
        tls_error(file, home, regular_files) is None,
    ensures
        public_roots_disabled(file) ==> ca_paths(file, home).len() > 0,
        forall|i: int|
            0 <= i < ca_paths(file, home).len() ==> regular_files.contains(
                #[trigger] ca_paths(file, home)[i],
            ),
{
    let errors = missing_errors(ca_paths(file, home), regular_files);
    lemma_first_error_none(errors);
    assert forall|i: int| 0 <= i < ca_paths(file, home).len() implies regular_files.contains(
        #[trigger] ca_paths(file, home)[i],
    ) by {
        assert(errors[i] is None);
    }
}

} // verus!
