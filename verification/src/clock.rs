//! The monotonic clock that buffers read when no time is handed to them.

use vstd::prelude::*;
use std::time::{Duration, Instant};

verus! {

/// `std::time::Instant`: a reading of the monotonic clock. Nothing is known of
/// what one holds.
#[verifier::external_type_specification]
#[verifier::external_body]
pub struct ExInstant(Instant);

/// `Instant::now` reads the clock. Nothing is claimed of the reading.
pub assume_specification[ Instant::now ]() -> (reading: Instant);

/// `Instant::elapsed` measures the time since `start` on the same clock.
/// Nothing is claimed of the measure.
pub assume_specification[ Instant::elapsed ](start: &Instant) -> (measure: Duration);

/// `Duration::as_nanos` gives the whole duration in nanoseconds. Nothing is
/// claimed of the number.
pub assume_specification[ Duration::as_nanos ](duration: &Duration) -> (nanos: u128);

/// A clock that counts nanoseconds from the moment it was started.
///
/// Its readings are the times that the buffers and sessions of this library
/// take: what they hold depends on the differences between readings alone.
#[derive(Clone, Copy, Debug)]
pub struct Clock {
    epoch: Instant,
}

impl Clock {
    /// A clock that starts to count now.
    pub fn start() -> Clock {
        Clock { epoch: Instant::now() }
    }

    /// Nanoseconds since the clock was started, held at `u64::MAX` once they
    /// exceed it. Nothing is promised of a reading: the library is verified
    /// for every time that a clock may show.
    pub fn now(&self) -> u64 {
        nanos_from(self.epoch.elapsed().as_nanos())
    }
}

/// The reading that a clock shows when `elapsed` nanoseconds have passed since
/// it was started: the nanoseconds themselves, `u64::MAX` once they exceed it.
pub open spec fn saturated(elapsed: nat) -> nat {
    if elapsed > u64::MAX {
        u64::MAX as nat
    } else {
        elapsed
    }
}

/// Computes [`saturated`]: turns the nanoseconds that were measured into the
/// reading of a clock.
pub fn nanos_from(elapsed: u128) -> (reading: u64)
    ensures
        reading == saturated(elapsed as nat),
{
    if elapsed > u64::MAX as u128 {
        u64::MAX
    } else {
        elapsed as u64
    }
}

} // verus!
