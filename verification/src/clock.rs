//! The wall clock, the one source of time in the library.

use vstd::prelude::*;

verus! {

/// Seconds since the Unix epoch (std's `SystemTime::now()`; zero if the clock
/// reads before the epoch). Nothing is promised of the value: it is the time.
#[verifier::external_body]
pub(crate) fn unix_now_secs() -> (t: u64) {
    std::time::SystemTime::now().duration_since(std::time::UNIX_EPOCH).map(|d| d.as_secs()).unwrap_or(0)
}

pub open spec fn saturating_sub_spec(a: u64, b: u64) -> u64 {
    if a >= b {
        (a - b) as u64
    } else {
        0
    }
}

} // verus!
