//! Validity checks that lean on outside crates: RFC 3339 timestamp text
//! and URL text.  The library keeps the validated text; what the text
//! denotes is the outside crate's business.

use vstd::prelude::*;

verus! {

/// Whether chrono accepts the text as an RFC 3339 date-and-time.
pub uninterp spec fn rfc3339_ok(s: Seq<char>) -> bool;

/// Whether the url crate accepts the text as an absolute URL.
pub uninterp spec fn url_ok(s: Seq<char>) -> bool;

/// Relies on chrono's DateTime::parse_from_rfc3339: whether the text
/// is an RFC 3339 date-and-time as that parser reads it, the outcome
/// depending on the text alone.
#[verifier::external_body]
pub(crate) fn rfc3339_valid(s: &str) -> (r: bool)
    ensures
        r == rfc3339_ok(s@),
{
    chrono::DateTime::parse_from_rfc3339(s).is_ok()
}

/// Relies on Url::parse of the url crate: whether the text is an
/// absolute URL as that parser reads it, the outcome depending on the
/// text alone.
#[verifier::external_body]
pub(crate) fn url_valid(s: &str) -> (r: bool)
    ensures
        r == url_ok(s@),
{
    url::Url::parse(s).is_ok()
}

} // verus!
