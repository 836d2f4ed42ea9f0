//! Wall-clock time in milliseconds since the Unix epoch.
use vstd::prelude::*;

verus! {

/// Relies on `chrono::Utc::now` and `DateTime::timestamp_millis`: the current time, read
/// from the system clock; nothing is known of its value.
#[verifier::external_body]
pub fn now_millis() -> (r: u64) {
    chrono::Utc::now().timestamp_millis() as u64
}

} // verus!
