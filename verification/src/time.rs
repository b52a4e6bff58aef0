//! The clock.
use vstd::prelude::*;

verus! {

/// Read the clock, in microseconds since it was started.
///
/// Calls `embassy_time::Instant::now` and `Instant::as_micros`. Nothing is claimed of the result.
#[verifier::external_body]
pub(crate) fn now_micros() -> (now: u64)
{
    embassy_time::Instant::now().as_micros()
}

} // verus!
