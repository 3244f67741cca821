//! Asteroids: how they are spawned, how they spin and when they are
//! destroyed.
use vstd::prelude::*;
use crate::collision::Collider;
use crate::collision::ObjectId;
use crate::movement::KinematicState;
use crate::policy::falls;
use crate::policy::id_of;
use crate::policy::stays;
use crate::random::sample_range;
use crate::timer::elapsed_after;
use crate::timer::tick_repeating;
use crate::timer::MAX_INTERVAL;
use crate::vector::lemma_norm_zero;
use crate::vector::lemma_stretched_length;
use crate::vector::Vec3;
use crate::world::is_live;
use crate::world::Category;
use crate::world::MovingObjectBundle;
use crate::world::Object;
use crate::world::World;

verus! {

/// Speed of a new asteroid: five world units per second.
pub const VELOCITY_SCALAR: u64 = 5_000_000_000;

/// Acceleration of a new asteroid: one world unit per second squared.
pub const ACCELERATION_SCALAR: u64 = 1_000;

/// Western edge of the rectangle in which asteroids appear: 25 world units
/// to the left of the origin.
pub const SPAWN_MIN_X: i64 = -25_000_000_000_000_000;

/// Eastern edge of the rectangle, which is not part of it.
pub const SPAWN_MAX_X: i64 = 25_000_000_000_000_000;

/// Near edge of the rectangle.
pub const SPAWN_MIN_Z: i64 = 0;

/// Far edge of the rectangle, which is not part of it: 25 world units.
pub const SPAWN_MAX_Z: i64 = 25_000_000_000_000_000;

/// Ticks between two asteroids: one second.
pub const SPAWN_TIME: u64 = 1_000_000;

/// How fast an asteroid spins, in millionths of a radian per tick: ten
/// radians per second.
pub const ROTATE_SPEED: u64 = 10;

/// Radius of an asteroid's collider: two and a half world units.
pub const RADIUS: u64 = 2_500_000_000_000_000;

/// Each horizontal component of a direction is drawn from `-DIRECTION_RANGE`
/// up to, and without, `DIRECTION_RANGE`.
pub const DIRECTION_RANGE: i64 = 1_000_000_000_000;

/// The asteroid kind.
#[derive(Clone, Copy, Debug)]
pub struct Asteroid;

impl Asteroid {
    /// The category under which the collision policy knows asteroids.
    pub fn category() -> (category: Category)
        ensures
            category == Category::Asteroid,
    {
        Category::Asteroid
    }
}

/// The repeating timer that paces the spawning of asteroids.
#[derive(Clone, Copy, Debug, PartialEq, Eq, Structural)]
pub struct SpawnTimer {
    /// Ticks since the timer last finished.
    pub elapsed: u64,
    /// Ticks from one finish to the next.
    pub interval: u64,
}

impl SpawnTimer {
    /// The interval is positive and at most `MAX_INTERVAL`, and less than
    /// one interval is on the clock.
    pub open spec fn wf(self) -> bool {
        &&& 0 < self.interval <= MAX_INTERVAL
        &&& self.elapsed < self.interval
    }

    /// The timer after a tick of `delta`.
    pub open spec fn ticked(self, delta: int) -> SpawnTimer {
        SpawnTimer {
            elapsed: elapsed_after(self.elapsed as int, self.interval as int, delta) as u64,
            interval: self.interval,
        }
    }

    /// Whether the timer finishes during a tick of `delta`: whether the
    /// clock reaches the interval.
    pub open spec fn fires(self, delta: int) -> bool {
        self.elapsed + delta >= self.interval
    }

    /// Whether the timer is valid: for callers that built or changed one by
    /// hand.
    pub fn is_valid(&self) -> (valid: bool)
        ensures
            valid == self.wf(),
    {
        0 < self.interval && self.interval <= MAX_INTERVAL && self.elapsed < self.interval
    }

    /// A timer that finishes every `interval` ticks, with nothing on its
    /// clock. There is none for an interval of zero or above `MAX_INTERVAL`.
    pub fn new(interval: u64) -> (timer: Option<SpawnTimer>)
        ensures
            timer.is_some() <==> 0 < interval <= MAX_INTERVAL,
            timer matches Some(t) ==> t == (SpawnTimer { elapsed: 0, interval }) && t.wf(),
    {
        if interval == 0 || interval > MAX_INTERVAL {
            None
        } else {
            Some(SpawnTimer { elapsed: 0, interval })
        }
    }

    /// Advances the timer by `delta` ticks and says whether it finished
    /// during them.
    pub fn tick(&mut self, delta: u64) -> (finished: bool)
        requires
            old(self).wf(),
        ensures
            final(self).wf(),
            *final(self) == old(self).ticked(delta as int),
            finished == old(self).fires(delta as int),
    {
        let finished = (self.elapsed as u128) + (delta as u128) >= self.interval as u128;
        self.elapsed = tick_repeating(self.elapsed, self.interval, delta);
        finished
    }
}

/// A tick that does not fill the interval only adds to the clock, and the
/// timer does not finish.
pub proof fn lemma_timer_waits(timer: SpawnTimer, delta: int)
    requires
        timer.wf(),
        0 <= delta,
        timer.elapsed + delta < timer.interval,
    ensures
        !timer.fires(delta),
        timer.ticked(delta).elapsed == timer.elapsed + delta,
{
    let sum = timer.elapsed + delta;
    let interval = timer.interval as int;
    assert(sum % interval == sum) by (nonlinear_arith)
        requires
            0 <= sum < interval,
    ;
}

/// A tick that fills the interval once, and not twice, makes the timer
/// finish and leaves on the clock what went beyond the interval.
pub proof fn lemma_timer_fires(timer: SpawnTimer, delta: int)
    requires
        timer.wf(),
        0 <= delta,
        timer.interval <= timer.elapsed + delta < 2 * timer.interval,
    ensures
        timer.fires(delta),
        timer.ticked(delta).elapsed == timer.elapsed + delta - timer.interval,
{
    let sum = timer.elapsed + delta;
    let interval = timer.interval as int;
    assert(sum % interval == sum - interval) by (nonlinear_arith)
        requires
            interval <= sum < 2 * interval,
    ;
}

/// The timer finishes during a tick exactly when at least one whole
/// interval is taken off its clock, and no time is lost: what is on the
/// clock afterwards and the whole intervals taken off make up what was on
/// the clock before and the tick.
pub proof fn lemma_timer_keeps_time(timer: SpawnTimer, delta: int)
    requires
        timer.wf(),
        0 <= delta <= u64::MAX,
    ensures
        ({
            let whole = (timer.elapsed + delta) / (timer.interval as int);
            &&& timer.ticked(delta).elapsed + whole * timer.interval == timer.elapsed + delta
            &&& timer.fires(delta) <==> whole >= 1
            &&& timer.ticked(delta).wf()
        }),
{
    let sum = timer.elapsed + delta;
    let interval = timer.interval as int;
    assert(sum == (sum / interval) * interval + sum % interval && 0 <= sum % interval < interval
        && (sum >= interval <==> sum / interval >= 1)) by (nonlinear_arith)
        requires
            0 <= sum,
            0 < interval,
    ;
}

/// The numbers drawn for one new asteroid.
#[derive(Clone, Copy, Debug, PartialEq, Eq, Structural)]
pub struct SpawnDraws {
    /// Where the asteroid appears, from west to east.
    pub x: i64,
    /// Where the asteroid appears, from near to far.
    pub z: i64,
    /// The horizontal direction in which it flies.
    pub velocity_x: i64,
    pub velocity_z: i64,
    /// The horizontal direction in which it is pulled.
    pub acceleration_x: i64,
    pub acceleration_z: i64,
}

impl SpawnDraws {
    /// The place lies in the spawn rectangle and the direction components in
    /// their range.
    pub open spec fn in_range(self) -> bool {
        &&& SPAWN_MIN_X <= self.x < SPAWN_MAX_X
        &&& SPAWN_MIN_Z <= self.z < SPAWN_MAX_Z
        &&& -DIRECTION_RANGE <= self.velocity_x < DIRECTION_RANGE
        &&& -DIRECTION_RANGE <= self.velocity_z < DIRECTION_RANGE
        &&& -DIRECTION_RANGE <= self.acceleration_x < DIRECTION_RANGE
        &&& -DIRECTION_RANGE <= self.acceleration_z < DIRECTION_RANGE
    }

    /// Where the asteroid appears: in the horizontal plane.
    pub open spec fn position(self) -> Vec3 {
        Vec3 { x: self.x, y: 0, z: self.z }
    }

    /// The velocity of the asteroid: its direction at `VELOCITY_SCALAR`.
    pub open spec fn velocity(self) -> Vec3 {
        (Vec3 { x: self.velocity_x, y: 0, z: self.velocity_z }).stretched(VELOCITY_SCALAR as int)
    }

    /// The acceleration of the asteroid: its direction at
    /// `ACCELERATION_SCALAR`.
    pub open spec fn acceleration(self) -> Vec3 {
        (Vec3 { x: self.acceleration_x, y: 0, z: self.acceleration_z }).stretched(
            ACCELERATION_SCALAR as int,
        )
    }

    /// Whether `bundle` is the asteroid that these draws describe.
    pub open spec fn describes(self, bundle: MovingObjectBundle) -> bool {
        &&& bundle.wf()
        &&& bundle.position == self.position()
        &&& bundle.motion == (KinematicState {
            velocity: self.velocity(),
            acceleration: self.acceleration(),
        })
        &&& bundle.collider.radius == RADIUS
    }
}

/// Draws the numbers for one new asteroid.
pub fn draw_asteroid() -> (draws: SpawnDraws)
    ensures
        draws.in_range(),
{
    let x = sample_range(SPAWN_MIN_X, SPAWN_MAX_X);
    let z = sample_range(SPAWN_MIN_Z, SPAWN_MAX_Z);
    let velocity_x = sample_range(-DIRECTION_RANGE, DIRECTION_RANGE);
    let velocity_z = sample_range(-DIRECTION_RANGE, DIRECTION_RANGE);
    let acceleration_x = sample_range(-DIRECTION_RANGE, DIRECTION_RANGE);
    let acceleration_z = sample_range(-DIRECTION_RANGE, DIRECTION_RANGE);
    SpawnDraws { x, z, velocity_x, velocity_z, acceleration_x, acceleration_z }
}

/// The asteroid that `draws` describe: placed in the horizontal plane,
/// flying at `VELOCITY_SCALAR` and pulled at `ACCELERATION_SCALAR` along the
/// drawn directions, with a collider of `RADIUS`. A direction of length zero
/// gives no motion.
pub fn asteroid_from_draws(draws: SpawnDraws) -> (bundle: MovingObjectBundle)
    ensures
        draws.describes(bundle),
{
    let position = Vec3::new(draws.x, 0, draws.z);
    let velocity = Vec3::new(draws.velocity_x, 0, draws.velocity_z).with_length(VELOCITY_SCALAR);
    let acceleration = Vec3::new(draws.acceleration_x, 0, draws.acceleration_z).with_length(
        ACCELERATION_SCALAR,
    );
    MovingObjectBundle {
        position,
        motion: KinematicState::new(velocity, acceleration),
        collider: Collider { radius: RADIUS, colliding_with: Vec::new() },
    }
}

/// Speed and pull of a new asteroid: where the drawn direction is not zero,
/// the velocity lies in the horizontal plane and is as long as
/// `VELOCITY_SCALAR`, rounded toward zero component by component: never
/// longer, and longer if each component were one larger in size. The same
/// holds of the acceleration and `ACCELERATION_SCALAR`. A direction of zero
/// gives the zero vector.
pub proof fn lemma_asteroid_motion(draws: SpawnDraws)
    ensures
        draws.velocity().y == 0,
        draws.acceleration().y == 0,
        draws.velocity_x != 0 || draws.velocity_z != 0 ==> draws.velocity().norm_squared()
            <= VELOCITY_SCALAR * VELOCITY_SCALAR < draws.velocity().outer_norm_squared(),
        draws.velocity_x == 0 && draws.velocity_z == 0 ==> draws.velocity() == (Vec3 {
            x: 0,
            y: 0,
            z: 0,
        }),
        draws.acceleration_x != 0 || draws.acceleration_z != 0
            ==> draws.acceleration().norm_squared() <= ACCELERATION_SCALAR * ACCELERATION_SCALAR
            < draws.acceleration().outer_norm_squared(),
        draws.acceleration_x == 0 && draws.acceleration_z == 0 ==> draws.acceleration() == (Vec3 {
            x: 0,
            y: 0,
            z: 0,
        }),
{
    let v = Vec3 { x: draws.velocity_x, y: 0, z: draws.velocity_z };
    let a = Vec3 { x: draws.acceleration_x, y: 0, z: draws.acceleration_z };
    lemma_norm_zero(v);
    lemma_norm_zero(a);
    if v.norm_squared() > 0 {
        lemma_stretched_length(v, VELOCITY_SCALAR as int);
    }
    if a.norm_squared() > 0 {
        lemma_stretched_length(a, ACCELERATION_SCALAR as int);
    }
}

/// Advances the spawn timer by `delta` ticks. If the timer finished during
/// them, one new asteroid is drawn and returned; otherwise nothing is.
pub fn spawn_asteroid(timer: &mut SpawnTimer, delta: u64) -> (spawned: Option<MovingObjectBundle>)
    requires
        old(timer).wf(),
    ensures
        final(timer).wf(),
        *final(timer) == old(timer).ticked(delta as int),
        spawned.is_some() == old(timer).fires(delta as int),
        spawned matches Some(bundle) ==> exists|draws: SpawnDraws|
            draws.in_range() && #[trigger] draws.describes(bundle),
{
    if !timer.tick(delta) {
        return None;
    }
    let draws = draw_asteroid();
    let spawned = Some(asteroid_from_draws(draws));
    assert(draws.in_range() && draws.describes(spawned->0));
    spawned
}

/// Puts a new asteroid into the world under the identifier `id`, behind all
/// other objects, in the category of asteroids. An identifier that is already
/// live is refused and nothing changes.
pub fn place_asteroid(world: &mut World, id: ObjectId, bundle: MovingObjectBundle) -> (added: bool)
    ensures
        old(world).wf() && bundle.wf() ==> final(world).wf(),
        added == !is_live(old(world).objects@, id),
        added ==> final(world).objects@ == old(world).objects@.push(
            Object {
                id,
                category: Category::Asteroid,
                position: bundle.position,
                motion: bundle.motion,
                collider: bundle.collider,
            },
        ),
        !added ==> final(world).objects@ == old(world).objects@,
{
    world.spawn(id, Asteroid::category(), bundle)
}

/// The angle by which every asteroid turns about its own axis during
/// `delta` ticks, in millionths of a radian.
pub fn rotate_asteroid(delta: u64) -> (angle: u128)
    ensures
        angle == ROTATE_SPEED * delta,
{
    assert(ROTATE_SPEED * delta <= 10 * 0xffff_ffff_ffff_ffff) by (nonlinear_arith)
        requires
            ROTATE_SPEED == 10,
            0 <= delta <= 0xffff_ffff_ffff_ffff,
    ;
    (ROTATE_SPEED as u128) * (delta as u128)
}

/// Destroys every asteroid that overlaps a live object which is not an
/// asteroid, and returns the identifiers of the destroyed.
pub fn handle_asteroid_collisions(world: &mut World) -> (destroyed: Vec<ObjectId>)
    ensures
        old(world).wf() ==> final(world).wf(),
        final(world).objects@ == old(world).objects@.filter(
            stays(old(world).objects@, Category::Asteroid),
        ),
        destroyed@ == old(world).objects@.filter(
            falls(old(world).objects@, Category::Asteroid),
        ).map_values(id_of()),
{
    world.handle_collisions(Asteroid::category())
}

/// The asteroid part of the simulation.
#[derive(Clone, Copy, Debug)]
pub struct AsteroidPlugin;

impl AsteroidPlugin {
    /// The state that the asteroid part starts with: a spawn timer of
    /// `SPAWN_TIME` with nothing on its clock.
    pub fn build(&self) -> (timer: SpawnTimer)
        ensures
            timer.wf(),
            timer == (SpawnTimer { elapsed: 0, interval: SPAWN_TIME }),
    {
        SpawnTimer { elapsed: 0, interval: SPAWN_TIME }
    }
}

} // verus!
