//! HTTP status codes.

use vstd::prelude::*;

use crate::text::{decimal, decimal_text, opt_str, opt_text};

verus! {

/// Declares the error of `http` for a number that is no status code.
#[verifier::external_type_specification]
#[verifier::external_body]
pub struct ExInvalidStatusCode(hyper::http::status::InvalidStatusCode);

/// A number that is a status code: three digits, the first of which is not zero.
pub open spec fn is_status(code: u16) -> bool {
    100 <= code <= 999
}

/// `hyper::StatusCode::from_u16`, with the status as a number again: it accepts the numbers from 100
/// to 999 and keeps them.
#[verifier::external_body]
pub(crate) fn status_from_u16(code: u16) -> (r: Result<u16, hyper::http::status::InvalidStatusCode>)
    ensures
        match r {
            Ok(s) => is_status(code) && s == code,
            Err(_) => !is_status(code),
        },
{
    hyper::StatusCode::from_u16(code).map(|s| s.as_u16())
}

/// The phrase that `StatusCode::canonical_reason` has for a status code, if it has one.
pub uninterp spec fn reason_phrase(code: u16) -> Option<Seq<char>>;

/// `StatusCode::canonical_reason`: the phrase that goes with a status code. It is named by
/// [`reason_phrase`].
#[verifier::external_body]
pub(crate) fn canonical_reason(code: u16) -> (r: Option<String>)
    requires
        is_status(code),
    ensures
        opt_text(r) == reason_phrase(code),
{
    hyper::StatusCode::from_u16(code).unwrap().canonical_reason().map(str::to_owned)
}

/// A status code with its phrase, as it is shown.
pub open spec fn shown_status(code: u16, reason: Option<Seq<char>>) -> Seq<char> {
    decimal(code as nat) + " "@ + match reason {
        Some(phrase) => phrase,
        None => "<unknown status code>"@,
    }
}

/// Writes a status code with its phrase.
pub fn status_text(code: u16, reason: Option<&str>) -> (r: String)
    ensures
        r@ == shown_status(code, opt_str(reason)),
{
    let mut out = decimal_text(code as u64);
    out.append(" ");
    match reason {
        Some(phrase) => out.append(phrase),
        None => out.append("<unknown status code>"),
    }
    out
}

} // verus!
