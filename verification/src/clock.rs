//! The wall clock, read in whole seconds since the Unix epoch.

use vstd::prelude::*;

verus! {

/// Seconds elapsed since the Unix epoch (std's `SystemTime::elapsed` on
/// `UNIX_EPOCH`), 0 when the clock reads earlier than the epoch. The value
/// depends on the moment of the call, so nothing is stated of it.
#[verifier::external_body]
pub(crate) fn now_secs() -> (r: u64) {
    match std::time::UNIX_EPOCH.elapsed() {
        Ok(d) => d.as_secs(),
        Err(_) => 0,
    }
}

} // verus!
