//! The wall clock.

use vstd::prelude::*;

verus! {

/// Reads the clock: `chrono::Utc::now()`, taken as milliseconds since the
/// Unix epoch by `DateTime::timestamp_millis`. Nothing is claimed of the
/// value: two calls may give any two numbers. `Utc::now` panics where the
/// system clock stands before the epoch.
#[verifier::external_body]
pub(crate) fn now_millis() -> (ms: i64) {
    chrono::Utc::now().timestamp_millis()
}

} // verus!
