//! The wall clock. Upload destinations are named after the upload's start
//! time; the value is time-dependent, so nothing is assumed of it.

use vstd::prelude::*;

verus! {

/// Relies on `chrono::Utc::now` and `DateTime::timestamp_millis`: the current
/// time in milliseconds since the epoch, rendered in decimal. The value
/// depends on the clock, so no ensures constrains it; every caller must hold
/// for every possible stamp.
#[verifier::external_body]
pub(crate) fn now_millis_string() -> (r: String) {
    format!("{}", chrono::Utc::now().timestamp_millis())
}

} // verus!
