//! The one clock access the search path needs.

use vstd::prelude::*;

verus! {

/// Relies on chrono's `Utc::now` and `DateTime::to_rfc3339` for the
/// current wall-clock time as an ISO-8601 (RFC 3339) string.  The value
/// depends on the moment of the call, so nothing is promised of it;
/// every search contract holds whatever string comes back.
#[verifier::external_body]
pub(crate) fn now_rfc3339() -> String {
    chrono::Utc::now().to_rfc3339()
}

} // verus!
