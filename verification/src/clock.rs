//! The current time.

use vstd::prelude::*;

verus! {

/// Calls `chrono::Utc::now()` and takes its `timestamp()`: the seconds since
/// the Unix epoch by the system clock. Nothing is stated of the value, which
/// depends on the clock; chrono panics if the clock reads before the epoch.
#[verifier::external_body]
pub(crate) fn now_timestamp() -> (t: i64) {
    chrono::Utc::now().timestamp()
}

} // verus!
