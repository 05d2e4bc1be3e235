//! The current time.

use vstd::prelude::*;

verus! {

/// The current Unix time in seconds: `chrono::Utc::now().timestamp()`. It depends on
/// the clock, so nothing is stated of it.
#[verifier::external_body]
pub(crate) fn now_timestamp() -> (r: i64) {
    chrono::Utc::now().timestamp()
}

/// The current time as RFC 3339 text: `chrono::Utc::now().to_rfc3339()`. It depends on
/// the clock, so nothing is stated of it.
#[verifier::external_body]
pub(crate) fn now_rfc3339() -> (r: String) {
    chrono::Utc::now().to_rfc3339()
}

} // verus!
