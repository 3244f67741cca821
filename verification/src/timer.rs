//! Repeating timers, kept as plain tick counts and advanced by `bevy`'s
//! `Timer`.
use vstd::prelude::*;
use bevy::time::Timer;
use bevy::time::TimerMode;
use std::time::Duration;

verus! {

/// The longest interval, in ticks, that a repeating timer can have: its
/// length in nanoseconds still fits in 64 bits.
pub const MAX_INTERVAL: u64 = 18_446_744_073_709_551;

/// What a repeating timer of `interval` ticks has on its clock after
/// `delta` more ticks, when it had `elapsed` before: whole intervals are
/// taken off.
pub open spec fn elapsed_after(elapsed: int, interval: int, delta: int) -> int {
    (elapsed + delta) % interval
}

/// Advances a repeating timer by `delta` ticks and returns what is on its
/// clock afterwards.
///
/// Calls `Timer::new`, `Timer::set_elapsed`, `Timer::tick` and
/// `Timer::elapsed` of `bevy`. Believed, not proved: a repeating timer adds
/// `delta` to its clock and keeps on it what the sum holds beyond whole
/// intervals.
#[verifier::external_body]
pub(crate) fn tick_repeating(elapsed: u64, interval: u64, delta: u64) -> (after: u64)
    requires
        0 < interval <= MAX_INTERVAL,
    ensures
        after == elapsed_after(elapsed as int, interval as int, delta as int),
{
    let mut timer = Timer::new(Duration::from_micros(interval), TimerMode::Repeating);
    timer.set_elapsed(Duration::from_micros(elapsed));
    timer.tick(Duration::from_micros(delta));
    timer.elapsed().as_micros() as u64
}

} // verus!
