//! Core engine of a leader-based, round-structured BFT consensus protocol
//! over a DAG of signed units.
//!
//! The crate is organised around three pieces: the append-only protocol
//! [`state::State`] (the DAG of units, equivocation evidence and endorsement
//! tallies), the [`active_validator::ActiveValidator`] (the timer-driven
//! scheduler and message producer for this node's identity), and the
//! [`finality::FinalityDetector`] (the weighted-summit rule that turns
//! accumulated unit weight into an irrevocable decision on a block).

pub mod round;
pub mod crypto;
pub mod validators;
pub mod panorama;
pub mod unit;
pub mod endorsement;
pub mod evidence;
pub mod codec;
pub mod state;
pub mod vertex;
pub mod active_validator;
pub mod finality;
pub mod hex;
pub mod uref;
pub mod candidate;
pub mod era;
pub mod linear_chain;
pub mod announcements;
pub mod execution;

use vstd::prelude::*;

verus! {

/// Unsigned 64-bit addition, stopping at the largest representable value.
pub open spec fn sat_add(a: u64, b: u64) -> u64 {
    if a + b > u64::MAX {
        u64::MAX
    } else {
        (a + b) as u64
    }
}

/// Milliseconds since epoch.
#[derive(Clone, Copy, PartialEq, Eq, Structural, Debug, Hash)]
pub struct Timestamp {
    pub millis: u64,
}

/// A difference between two timestamps, in milliseconds.
#[derive(Clone, Copy, PartialEq, Eq, Structural, Debug, Hash)]
pub struct TimeDiff {
    pub millis: u64,
}

impl Timestamp {
    /// The zero timestamp, earlier than every other timestamp.
    pub fn zero() -> (r: Timestamp)
        ensures
            r.millis == 0,
    {
        Timestamp { millis: 0 }
    }

    pub fn new(millis: u64) -> (r: Timestamp)
        ensures
            r.millis == millis,
    {
        Timestamp { millis }
    }

    /// Adds a duration to this timestamp; the sum must fit in 64 bits.
    pub fn plus(self, d: TimeDiff) -> (r: Timestamp)
        requires
            self.millis + d.millis <= u64::MAX,
        ensures
            r.millis == self.millis + d.millis,
    {
        Timestamp { millis: self.millis + d.millis }
    }

    /// Adds a duration, stopping at the largest representable timestamp.
    pub fn saturating_plus(self, d: TimeDiff) -> (r: Timestamp)
        ensures
            r.millis == crate::sat_add(self.millis, d.millis),
    {
        if self.millis <= u64::MAX - d.millis {
            Timestamp { millis: self.millis + d.millis }
        } else {
            Timestamp { millis: u64::MAX }
        }
    }

    /// The larger of two timestamps.
    pub fn max(self, other: Timestamp) -> (r: Timestamp)
        ensures
            r.millis == if self.millis >= other.millis {
                self.millis
            } else {
                other.millis
            },
    {
        if self.millis >= other.millis {
            self
        } else {
            other
        }
    }
}

} // verus!
