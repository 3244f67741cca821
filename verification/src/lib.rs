//! Movement integration and sphere collision detection for a small arcade
//! simulation, on exact fixed-point integers.
//!
//! Time is counted in ticks of one microsecond. Positions, velocities and
//! accelerations are stored as integers scaled so that one integration step
//! is exact integer arithmetic: see [`units`].
//!
//! A frame runs in four steps, which the host calls in this order:
//! [`asteroids::spawn_asteroid`] may create an asteroid, which
//! [`asteroids::place_asteroid`] puts into the world,
//! [`world::World::integrate`] moves every object,
//! [`world::World::detect_collisions`] recomputes every overlap set, and
//! [`world::World::handle_collisions`] removes what the collision policy
//! condemns.
//!
//! Two things are taken on trust from other crates: what `bevy`'s repeating
//! timer keeps on its clock ([`timer`]), and that `rand` draws from the range
//! it is given ([`random`]). Everything else is proved.
pub mod asteroids;
pub mod collision;
pub mod detection;
pub mod movement;
pub mod policy;
pub mod random;
pub mod roots;
pub mod timer;
pub mod units;
pub mod vector;
pub mod wide;
pub mod world;
