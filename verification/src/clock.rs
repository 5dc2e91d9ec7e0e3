//! Wall-clock readings, taken through chrono.

use vstd::prelude::*;

verus! {

/// The current UTC time as chrono renders it with `Utc::now().to_rfc3339()`.
///
/// The result depends on the time of the call, so nothing is stated of it.
#[verifier::external_body]
pub(crate) fn now_rfc3339() -> (r: String) {
    chrono::Utc::now().to_rfc3339()
}

/// Milliseconds since the Unix epoch, as chrono's
/// `Utc::now().timestamp_millis()` reports them.
///
/// `Utc::now` measures from the epoch and stops on a clock set before it,
/// so a returned reading is never negative; which reading comes back
/// depends on the time of the call and is not stated.
#[verifier::external_body]
pub(crate) fn now_timestamp_millis() -> (r: i64)
    ensures
        r >= 0,
{
    chrono::Utc::now().timestamp_millis()
}

/// Milliseconds since the Unix epoch on the wall clock.
pub fn now_millis() -> (r: u64) {
    let t = now_timestamp_millis();
    t as u64
}

} // verus!
