//! The fixed-point scales shared by the whole simulation.
//!
//! A position is stored in quanta, a velocity in quanta per tick and an
//! acceleration in quanta per tick squared. With the scales below a velocity
//! times a number of ticks is a position, and an acceleration times a number
//! of ticks is a velocity, with no rounding.
use vstd::prelude::*;

verus! {

/// Ticks in one second: a tick is a microsecond.
pub const TICKS_PER_SECOND: u64 = 1_000_000;

/// Stored value of an acceleration of one world unit per second squared.
pub const ACCELERATION_UNIT: i64 = 1_000;

/// Stored value of a velocity of one world unit per second.
pub const VELOCITY_UNIT: i64 = 1_000_000_000;

/// Stored value of a length of one world unit.
pub const POSITION_UNIT: i64 = 1_000_000_000_000_000;

/// Nanoseconds in one tick.
pub const NANOS_PER_TICK: u64 = 1_000;

/// Turns the durations of frames, given in nanoseconds, into whole ticks.
/// What a frame leaves below one tick is carried over to the next frame.
#[derive(Clone, Copy, Debug, PartialEq, Eq, Structural)]
pub struct FrameClock {
    /// Nanoseconds that have passed and are not yet counted in a tick.
    pub carry: u64,
}

impl FrameClock {
    /// A clock that carries nothing over.
    pub fn new() -> (clock: FrameClock)
        ensures
            clock.carry == 0,
    {
        FrameClock { carry: 0 }
    }

    /// Takes in a frame of `nanos` nanoseconds and returns the whole ticks
    /// that have passed. No time is lost: the ticks returned and what is
    /// carried over make up what was carried before and the frame.
    pub fn advance(&mut self, nanos: u64) -> (ticks: u64)
        ensures
            ticks == (old(self).carry + nanos) / (NANOS_PER_TICK as int),
            final(self).carry == (old(self).carry + nanos) % (NANOS_PER_TICK as int),
            ticks * NANOS_PER_TICK + final(self).carry == old(self).carry + nanos,
            final(self).carry < NANOS_PER_TICK,
    {
        let sum: u128 = (self.carry as u128) + (nanos as u128);
        self.carry = (sum % (NANOS_PER_TICK as u128)) as u64;
        (sum / (NANOS_PER_TICK as u128)) as u64
    }
}

} // verus!
