//! Fresh identifiers and creation timestamps, drawn from outside crates.

use vstd::prelude::*;

verus! {

/// Relies on uuid::Uuid::new_v4 and uuid's Display form: a freshly drawn
/// version-4 UUID rendered hyphenated, which is 36 characters long. The
/// value is random, so nothing more is assumed of it; the store checks
/// freshness against its own contents rather than assuming it.
#[verifier::external_body]
pub(crate) fn fresh_uuid() -> (r: String)
    ensures
        r@.len() == 36,
{
    uuid::Uuid::new_v4().to_string()
}

/// Relies on chrono::Utc::now and chrono::DateTime::to_rfc3339: the current
/// wall-clock time rendered as an RFC 3339 string. The value depends on the
/// clock, so nothing is assumed about its content.
#[verifier::external_body]
pub(crate) fn now_rfc3339() -> (r: String) {
    chrono::Utc::now().to_rfc3339()
}

} // verus!
