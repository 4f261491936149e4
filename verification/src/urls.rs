//! URL validation: gate arbitrary input strings, keep only absolute URLs
//! with a host, and hand back their canonical serialization.

use vstd::prelude::*;
use crate::errors::{ErrorKind, ServiceError};

verus! {

/// Whether a string parses as an absolute URL with a non-empty host.
pub uninterp spec fn url_ok(s: Seq<char>) -> bool;

/// The canonical serialization of an absolute URL, after percent-encoding
/// and default-port normalization by the standard URL parsing rules.
/// Meaningful where `url_ok` holds of the input.
pub uninterp spec fn url_canon(s: Seq<char>) -> Seq<char>;

/// Relies on `url::Url::parse` to decide whether `raw` is an absolute URL,
/// on `url::Url::has_host` to reject URLs without a host (such as `mailto:`
/// or `data:` URLs), and on `url::Url::as_str` for the canonical
/// serialization of what was parsed. All three are deterministic functions
/// of `raw` alone. The serialization always starts with the scheme, so it
/// is never empty. A parse failure hands the parser's diagnostic out as
/// `Err(Some(text))`; a parsed URL without a host gives `Err(None)`.
#[verifier::external_body]
fn parse_absolute(raw: &str) -> (r: Result<String, Option<String>>)
    ensures
        r is Ok <==> url_ok(raw@),
        match r {
            Ok(canon) => canon@ == url_canon(raw@) && canon@.len() > 0,
            Err(_) => true,
        },
{
    match url::Url::parse(raw) {
        Ok(u) => if u.has_host() {
            Ok(u.as_str().to_string())
        } else {
            Err(None)
        },
        Err(e) => Err(Some(format!("{e}"))),
    }
}

/// Validate a candidate URL: accept exactly the absolute URLs with a host,
/// and return the canonical form, which is what gets persisted. Rejected
/// input yields `InvalidUrl` and nothing else, carrying the underlying
/// parse diagnostic.
pub fn validate(raw: &str) -> (r: Result<String, ServiceError>)
    ensures
        match r {
            Ok(canon) => url_ok(raw@) && canon@ == url_canon(raw@) && canon@.len() > 0,
            Err(e) => e.kind == ErrorKind::InvalidUrl && !url_ok(raw@),
        },
{
    match parse_absolute(raw) {
        Ok(canon) => Ok(canon),
        Err(diag) => {
            let diagnostic: String = match diag {
                Some(d) => d,
                None => "the URL has no host".to_string(),
            };
            Err(ServiceError { kind: ErrorKind::InvalidUrl, diagnostic })
        },
    }
}

} // verus!
