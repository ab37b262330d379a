//! The wall clock.
use vstd::prelude::*;
use crate::models::Timestamp;

verus! {

/// The current time.
///
/// Trusted: calls `chrono::Utc::now` and splits it with `timestamp` and
/// `timestamp_subsec_nanos`. Of the value nothing is promised (it is the
/// clock); chrono documents that the nanoseconds stay below two seconds'
/// worth, a leap second included. chrono panics when the system clock reads
/// before 1970; no argument can rule that out, so the contract leaves it
/// unsaid.
#[verifier::external_body]
pub(crate) fn now() -> (r: Timestamp)
    ensures
        r.nanos < 2000000000,
{
    let t = chrono::Utc::now();
    Timestamp { secs: t.timestamp(), nanos: t.timestamp_subsec_nanos() }
}

} // verus!
