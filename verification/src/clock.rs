//! The monotonic clock of the standard library, as far as timing a
//! computation needs it.

use std::time::{Duration, Instant};
use vstd::prelude::*;

verus! {

/// A reading of the monotonic clock. Nothing is known of its contents here.
#[verifier::external_type_specification]
#[verifier::external_body]
pub struct ExInstant(std::time::Instant);

/// `Instant::now` reads the clock. The reading depends on when the call is
/// made, so nothing is claimed of it.
pub assume_specification[ std::time::Instant::now ]() -> (now: Instant)
;

/// `Instant::saturating_duration_since` gives the time from an earlier
/// reading to a later one, and a duration of zero where the readings are the
/// other way round. A reading is opaque here, so nothing is claimed of the
/// duration.
pub assume_specification[ std::time::Instant::saturating_duration_since ](
    later: &Instant,
    earlier: Instant,
) -> (between: Duration)
;

/// `Duration::as_nanos` gives a duration as a whole number of nanoseconds.
/// A duration is opaque here, so nothing is claimed of the number.
pub assume_specification[ core::time::Duration::as_nanos ](duration: &Duration) -> (nanos: u128)
;

} // verus!
