//! The movement integrator: one semi-implicit Euler step per frame.
use vstd::prelude::*;
use crate::vector::Vec3;
use crate::vector::saturate;

verus! {

/// Velocity and acceleration of an object that moves under linear dynamics.
#[derive(Clone, Copy, Debug, PartialEq, Eq, Structural)]
pub struct KinematicState {
    pub velocity: Vec3,
    pub acceleration: Vec3,
}

impl KinematicState {
    /// The state with the given velocity and acceleration.
    pub fn new(velocity: Vec3, acceleration: Vec3) -> (state: KinematicState)
        ensures
            state == (KinematicState { velocity, acceleration }),
    {
        KinematicState { velocity, acceleration }
    }

    /// The state after `ticks`: the acceleration has acted on the velocity.
    pub open spec fn stepped(self, ticks: int) -> KinematicState {
        KinematicState {
            velocity: self.velocity.advanced(self.acceleration, ticks),
            acceleration: self.acceleration,
        }
    }
}

/// Where an object at `position` is after `ticks`: it has moved with the
/// velocity that the step itself produced.
pub open spec fn moved(position: Vec3, state: KinematicState, ticks: int) -> Vec3 {
    position.advanced(state.stepped(ticks).velocity, ticks)
}

/// Advances one object by `ticks`. The acceleration is applied to the
/// velocity first, and the new velocity then moves the position. Each
/// component saturates at the ends of `i64`; the acceleration is kept.
pub fn integrate(position: &mut Vec3, state: &mut KinematicState, ticks: u64)
    ensures
        *final(state) == old(state).stepped(ticks as int),
        *final(position) == moved(*old(position), *old(state), ticks as int),
{
    let velocity = state.velocity.advance(state.acceleration, ticks);
    state.velocity = velocity;
    *position = position.advance(velocity, ticks);
}

/// Whether `value + rate * ticks` lies in the range of `i64`.
pub open spec fn fits(value: int, rate: int, ticks: int) -> bool {
    i64::MIN <= value + rate * ticks <= i64::MAX
}

/// Whether a step of `ticks` keeps every component of velocity and position
/// in the range of `i64`.
pub open spec fn step_fits(position: Vec3, state: KinematicState, ticks: int) -> bool {
    let v = state.velocity;
    let a = state.acceleration;
    &&& fits(v.x as int, a.x as int, ticks)
    &&& fits(v.y as int, a.y as int, ticks)
    &&& fits(v.z as int, a.z as int, ticks)
    &&& fits(position.x as int, v.x + a.x * ticks, ticks)
    &&& fits(position.y as int, v.y + a.y * ticks, ticks)
    &&& fits(position.z as int, v.z + a.z * ticks, ticks)
}

/// Integration is exact: while nothing leaves the range of `i64`, the new
/// velocity is `velocity + acceleration * ticks` and the new position is
/// `position + new velocity * ticks`, component by component.
pub proof fn lemma_step_exact(position: Vec3, state: KinematicState, ticks: int)
    requires
        step_fits(position, state, ticks),
    ensures
        ({
            let v = state.velocity;
            let a = state.acceleration;
            let w = state.stepped(ticks).velocity;
            let p = moved(position, state, ticks);
            &&& w.x == v.x + a.x * ticks
            &&& w.y == v.y + a.y * ticks
            &&& w.z == v.z + a.z * ticks
            &&& p.x == position.x + w.x * ticks
            &&& p.y == position.y + w.y * ticks
            &&& p.z == position.z + w.z * ticks
            &&& state.stepped(ticks).acceleration == a
        }),
{
}

/// A step of no ticks changes neither velocity nor position.
pub proof fn lemma_step_of_zero_ticks(position: Vec3, state: KinematicState)
    ensures
        state.stepped(0) == state,
        moved(position, state, 0) == position,
{
    assert(saturate(position.x as int) == position.x);
}

} // verus!
