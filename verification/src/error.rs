//! The errors of the gateway: a kind to act on and a message to show.

use vstd::prelude::*;

verus! {

/// What went wrong.
#[derive(Clone, Copy, Debug, PartialEq, Eq, Structural)]
pub enum ErrorKind {
    /// A glob pattern does not compile.
    GlobPattern,
    /// A regular expression does not compile.
    RegexPattern,
    /// A number is no HTTP status code.
    StatusCode,
    /// The root directory of a virtual host is missing.
    VirtualHostRoot,
    /// A `strip-prefix` does not start with a slash.
    StripPrefix,
    /// A proxy rule has both `target` and `targets`.
    TargetConflict,
    /// A proxy rule has neither `target` nor `targets`.
    TargetMissing,
    /// An upstream target is no URL.
    TargetUrl,
    /// An upstream target has no scheme.
    TargetScheme,
    /// An upstream target has no host.
    TargetHost,
    /// A balancer was given no upstream.
    NoUpstream,
    /// A URI has no authority.
    NoAuthority,
    /// A URI has no scheme.
    NoScheme,
    /// A rule has no template for the upstream that was picked.
    TemplateIndex,
    /// What is left of a request path behind the prefix does not start with a slash.
    StrippedPath,
    /// The URI made for an upstream request is invalid.
    UpstreamUri,
    /// A value cannot stand in a header.
    HeaderValue,
    /// A header map is full.
    HeaderOverflow,
    /// The routes document has an unsupported version.
    DocumentVersion,
    /// The source of a route does not start with a slash.
    RouteSource,
    /// The source of a route contains `..`.
    RouteSourceDots,
    /// The bootstrap URL is invalid.
    BootstrapUrl,
    /// The environment variable that should hold the bootstrap token is not set.
    BootstrapToken,
    /// The control plane answered with a status other than success.
    BootstrapStatus,
    /// The routes could not be fetched, and there is nothing to fall back to.
    BootstrapFailed,
    /// A path starts with `~`, and the home directory is unknown.
    TlsHome,
    /// The public roots are disabled, and no CA file is given.
    TlsNoTrust,
    /// A CA file is missing.
    TlsFileMissing,
    /// A CA file cannot be opened.
    TlsOpen,
    /// A CA file is no valid PEM.
    TlsPem,
    /// A CA file holds no certificate.
    TlsNoCertificates,
    /// A certificate is malformed.
    TlsCertificate,
    /// No trust anchor was loaded.
    TlsNoAnchors,
}

/// An error of the gateway.
#[derive(Debug)]
pub struct GatewayError {
    /// What went wrong.
    pub kind: ErrorKind,
    /// The message to show.
    pub message: String,
}

/// The mathematical view of an [`GatewayError`].
#[verifier::ext_equal]
pub struct ErrorView {
    pub kind: ErrorKind,
    pub message: Seq<char>,
}

impl View for GatewayError {
    type V = ErrorView;

    open spec fn view(&self) -> ErrorView {
        ErrorView { kind: self.kind, message: self.message@ }
    }
}

/// The error of the given kind and message.
pub open spec fn err(kind: ErrorKind, message: Seq<char>) -> ErrorView {
    ErrorView { kind, message }
}

/// The earliest of a sequence of possible errors.
pub open spec fn first_error(errors: Seq<Option<ErrorView>>) -> Option<ErrorView>
    decreases errors.len(),
{
    if errors.len() == 0 {
        None
    } else {
        match first_error(errors.drop_last()) {
            Some(e) => Some(e),
            None => errors.last(),
        }
    }
}

/// There is no earliest error exactly where no entry is one.
pub proof fn lemma_first_error_none(errors: Seq<Option<ErrorView>>)
    ensures
        first_error(errors) is None <==> forall|i: int|
            0 <= i < errors.len() ==> #[trigger] errors[i] is None,
    decreases errors.len(),
{
    if errors.len() > 0 {
        lemma_first_error_none(errors.drop_last());
        if first_error(errors) is None {
            assert forall|i: int| 0 <= i < errors.len() implies #[trigger] errors[i] is None by {
                if i < errors.len() - 1 {
                    assert(errors.drop_last()[i] is None);
                }
            }
        } else if forall|i: int| 0 <= i < errors.len() ==> #[trigger] errors[i] is None {
            assert forall|i: int| 0 <= i < errors.drop_last().len() implies
                #[trigger] errors.drop_last()[i] is None by {
                assert(errors[i] is None);
            }
            assert(errors[errors.len() - 1] is None);
        }
    }
}

/// An error that the first `n` entries hold is the earliest of them all.
pub proof fn lemma_first_error_prefix(errors: Seq<Option<ErrorView>>, n: int)
    requires
        0 <= n <= errors.len(),
        first_error(errors.take(n)) is Some,
    ensures
        first_error(errors) == first_error(errors.take(n)),
    decreases errors.len() - n,
{
    if n < errors.len() {
        assert(errors.take(n + 1).drop_last() =~= errors.take(n));
        lemma_first_error_prefix(errors, n + 1);
    } else {
        assert(errors.take(n) =~= errors);
    }
}

/// Makes an error.
pub(crate) fn error(kind: ErrorKind, message: String) -> (r: GatewayError)
    ensures
        r@ == err(kind, message@),
{
    GatewayError { kind, message }
}

/// Makes an error whose message is `head` followed by `detail`.
pub(crate) fn error_about(kind: ErrorKind, head: &str, detail: &str) -> (r: GatewayError)
    ensures
        r@ == err(kind, head@ + detail@),
{
    let mut message = head.to_owned();
    message.append(detail);
    GatewayError { kind, message }
}

} // verus!
