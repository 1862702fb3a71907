//! Access to the wall clock. Every function of the core that depends on time
//! takes the timestamp as an argument, so its contract holds for every value;
//! this wrapper is the one place that reads the clock.

use vstd::prelude::*;

verus! {

/// Relies on chrono's `Utc::now`: the current Unix timestamp in seconds.
/// Nothing is assumed of the value.
#[verifier::external_body]
pub fn now_ts() -> i64 {
    chrono::Utc::now().timestamp()
}

} // verus!
