//! The store stamps records with the current time, which only the chrono
//! crate can supply.

use vstd::prelude::*;

verus! {

/// Relies on chrono::Utc::now: the current time, read as microseconds since
/// the Unix epoch. Nothing is promised of the value; the store keeps each
/// record's timestamps ordered whatever the clock returns.
#[verifier::external_body]
pub(crate) fn now_micros() -> i64 {
    chrono::Utc::now().timestamp_micros()
}

} // verus!
