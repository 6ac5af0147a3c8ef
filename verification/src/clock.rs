//! Wall-clock access for server-assigned timestamps.

use vstd::prelude::*;

verus! {

/// Relies on `chrono::Utc::now` / `DateTime::timestamp_millis`: the current
/// wall-clock time as milliseconds since the Unix epoch. Nothing is assumed
/// of the value; callers state what holds whatever the clock returned.
#[verifier::external_body]
pub(crate) fn now_millis() -> i64 {
    chrono::Utc::now().timestamp_millis()
}

} // verus!
