//! The one place the library reads the clock. Session operations take the
//! current time as a plain argument, so everything downstream is verified
//! for every value the clock may produce.

use vstd::prelude::*;

verus! {

/// Relies on chrono::Local::now and chrono::DateTime::timestamp_millis: the
/// current moment as non-leap milliseconds since January 1, 1970 UTC. The
/// result depends on the clock, so nothing is promised of it.
#[verifier::external_body]
fn chrono_now_timestamp_millis() -> i64 {
    chrono::Local::now().timestamp_millis()
}

/// The current time in milliseconds since the Unix epoch, clamped below at
/// zero. Callers hand this value to the session operations, which are
/// verified for every value it may take.
pub fn now_millis() -> u64 {
    let ms = chrono_now_timestamp_millis();
    if ms < 0 {
        0
    } else {
        ms as u64
    }
}

} // verus!
