//! The wall clock.
//!
//! Every time-dependent operation of the store takes the current time as an
//! argument and is verified for every value of it; this module holds the one
//! place where the time is actually read.

use vstd::prelude::*;

verus! {

/// Relies on chrono's `Utc::now`, read as non-leap milliseconds since the
/// Unix epoch. Nothing is promised of the value: the callers' contracts state
/// what holds whatever the clock returns.
#[verifier::external_body]
pub(crate) fn now_millis() -> i64 {
    chrono::Utc::now().timestamp_millis()
}

} // verus!
