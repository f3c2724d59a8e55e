//! The wall clock.

use vstd::prelude::*;

verus! {

/// The current time, in milliseconds since 1 January 1970 UTC.
///
/// Calls `chrono::Utc::now` and `DateTime::timestamp_millis` on what it
/// returns. Nothing is claimed of the result: two calls may give the same
/// number, and a later call may give a smaller one. `Utc::now` panics where
/// the system clock is set before 1970.
#[verifier::external_body]
pub(crate) fn now_millis() -> i64 {
    chrono::Utc::now().timestamp_millis()
}

} // verus!
