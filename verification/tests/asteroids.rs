use asteroid_sim::asteroids::asteroid_from_draws;
use asteroid_sim::asteroids::draw_asteroid;
use asteroid_sim::asteroids::place_asteroid;
use asteroid_sim::asteroids::rotate_asteroid;
use asteroid_sim::asteroids::spawn_asteroid;
use asteroid_sim::asteroids::Asteroid;
use asteroid_sim::asteroids::AsteroidPlugin;
use asteroid_sim::asteroids::SpawnDraws;
use asteroid_sim::asteroids::SpawnTimer;
use asteroid_sim::asteroids::ACCELERATION_SCALAR;
use asteroid_sim::asteroids::DIRECTION_RANGE;
use asteroid_sim::asteroids::RADIUS;
use asteroid_sim::asteroids::SPAWN_MAX_X;
use asteroid_sim::asteroids::SPAWN_MAX_Z;
use asteroid_sim::asteroids::SPAWN_MIN_X;
use asteroid_sim::asteroids::SPAWN_MIN_Z;
use asteroid_sim::asteroids::SPAWN_TIME;
use asteroid_sim::asteroids::VELOCITY_SCALAR;
use asteroid_sim::timer::MAX_INTERVAL;
use asteroid_sim::units::FrameClock;
use asteroid_sim::units::ACCELERATION_UNIT;
use asteroid_sim::units::POSITION_UNIT;
use asteroid_sim::units::TICKS_PER_SECOND;
use asteroid_sim::units::VELOCITY_UNIT;
use asteroid_sim::vector::Vec3;
use asteroid_sim::world::Category;
use asteroid_sim::world::World;

#[test]
fn constants_in_world_units() {
    assert_eq!(VELOCITY_SCALAR as i64, 5 * VELOCITY_UNIT);
    assert_eq!(ACCELERATION_SCALAR as i64, ACCELERATION_UNIT);
    assert_eq!(SPAWN_MIN_X, -25 * POSITION_UNIT);
    assert_eq!(SPAWN_MAX_X, 25 * POSITION_UNIT);
    assert_eq!(SPAWN_MIN_Z, 0);
    assert_eq!(SPAWN_MAX_Z, 25 * POSITION_UNIT);
    assert_eq!(SPAWN_TIME, TICKS_PER_SECOND);
    assert_eq!(RADIUS as i64, 5 * POSITION_UNIT / 2);
    assert_eq!(Asteroid::category(), Category::Asteroid);
}

#[test]
fn plugin_starts_with_a_one_second_timer() {
    let timer = AsteroidPlugin.build();
    assert_eq!(timer, SpawnTimer { elapsed: 0, interval: 1_000_000 });
    assert_eq!(SpawnTimer::new(1_000_000), Some(timer));
}

#[test]
fn timer_needs_an_interval_in_range() {
    assert_eq!(SpawnTimer::new(0), None);
    assert_eq!(SpawnTimer::new(MAX_INTERVAL + 1), None);
    assert_eq!(SpawnTimer::new(u64::MAX), None);
    assert_eq!(SpawnTimer::new(1), Some(SpawnTimer { elapsed: 0, interval: 1 }));
    assert_eq!(
        SpawnTimer::new(MAX_INTERVAL),
        Some(SpawnTimer { elapsed: 0, interval: MAX_INTERVAL })
    );
}

#[test]
fn spawn_fires_once_when_the_deltas_fill_the_interval() {
    let mut timer = AsteroidPlugin.build();
    let mut spawned = 0;
    for _ in 0..4 {
        if spawn_asteroid(&mut timer, 250_000).is_some() {
            spawned += 1;
        }
    }
    assert_eq!(spawned, 1);
    assert_eq!(timer.elapsed, 0);
}

#[test]
fn spawn_does_not_fire_just_short_of_the_interval() {
    let mut timer = AsteroidPlugin.build();
    let mut spawned = 0;
    for delta in [333_000, 333_000, 333_000] {
        if spawn_asteroid(&mut timer, delta).is_some() {
            spawned += 1;
        }
    }
    assert_eq!(spawned, 0);
    assert_eq!(timer.elapsed, 999_000);
    assert!(spawn_asteroid(&mut timer, 999).is_none());
    assert_eq!(timer.elapsed, 999_999);
    assert!(spawn_asteroid(&mut timer, 1).is_some());
    assert_eq!(timer.elapsed, 0);
}

#[test]
fn timer_keeps_what_went_beyond_the_interval() {
    let mut timer = SpawnTimer::new(1_000_000).unwrap();
    assert!(!timer.tick(400_000));
    assert_eq!(timer, SpawnTimer { elapsed: 400_000, interval: 1_000_000 });
    assert!(timer.tick(700_000));
    assert_eq!(timer, SpawnTimer { elapsed: 100_000, interval: 1_000_000 });
    assert!(!timer.tick(0));
    assert_eq!(timer.elapsed, 100_000);
    assert!(timer.tick(3_500_000));
    assert_eq!(timer.elapsed, 600_000);
}

#[test]
fn timer_at_the_ends_of_its_range() {
    let mut longest = SpawnTimer::new(MAX_INTERVAL).unwrap();
    assert!(!longest.tick(MAX_INTERVAL - 1));
    assert_eq!(longest.elapsed, MAX_INTERVAL - 1);
    assert!(longest.tick(2));
    assert_eq!(longest.elapsed, 1);
    assert!(longest.tick(u64::MAX));
    assert_eq!(longest.elapsed, (1 + u64::MAX as u128).rem_euclid(MAX_INTERVAL as u128) as u64);
}

#[test]
fn timer_fires_however_many_intervals_pass() {
    let mut shortest = SpawnTimer::new(1).unwrap();
    assert!(shortest.tick(1));
    assert!(shortest.tick(4_294_967_295));
    assert!(shortest.tick(4_294_967_296));
    assert!(shortest.tick(4_294_967_297));
    assert!(shortest.tick(u64::MAX));
    assert!(!shortest.tick(0));
    assert_eq!(shortest.elapsed, 0);
    let mut second = SpawnTimer::new(1_000_000).unwrap();
    assert!(second.tick(4_294_967_296_000_000));
    assert_eq!(second.elapsed, 0);
    let mut timer = AsteroidPlugin.build();
    assert!(spawn_asteroid(&mut timer, 4_294_967_296_000_000).is_some());
    let mut milli = SpawnTimer::new(1_000).unwrap();
    assert!(milli.tick(4_294_967_296_000));
    assert!(milli.tick(8_589_934_592_500));
    assert_eq!(milli.elapsed, 500);
}

#[test]
fn asteroid_from_given_draws() {
    let draws = SpawnDraws {
        x: -7 * POSITION_UNIT,
        z: 11 * POSITION_UNIT,
        velocity_x: 3_000,
        velocity_z: -4_000,
        acceleration_x: 0,
        acceleration_z: 250,
    };
    let bundle = asteroid_from_draws(draws);
    assert_eq!(bundle.position, Vec3::new(-7 * POSITION_UNIT, 0, 11 * POSITION_UNIT));
    assert_eq!(bundle.motion.velocity, Vec3::new(3_000_000_000, 0, -4_000_000_000));
    assert_eq!(bundle.motion.acceleration, Vec3::new(0, 0, 1_000));
    assert_eq!(bundle.collider.radius, RADIUS);
    assert!(bundle.collider.colliding_with.is_empty());
}

#[test]
fn asteroid_from_a_degenerate_direction_does_not_move() {
    let draws = SpawnDraws {
        x: 0,
        z: 0,
        velocity_x: 0,
        velocity_z: 0,
        acceleration_x: 0,
        acceleration_z: 0,
    };
    let bundle = asteroid_from_draws(draws);
    assert_eq!(bundle.motion.velocity, Vec3::zero());
    assert_eq!(bundle.motion.acceleration, Vec3::zero());
    assert_eq!(bundle.collider.radius, RADIUS);
}

#[test]
fn draws_lie_in_their_ranges_and_vary() {
    let mut xs = Vec::new();
    for _ in 0..200 {
        let draws = draw_asteroid();
        assert!(SPAWN_MIN_X <= draws.x && draws.x < SPAWN_MAX_X);
        assert!(SPAWN_MIN_Z <= draws.z && draws.z < SPAWN_MAX_Z);
        for d in [
            draws.velocity_x,
            draws.velocity_z,
            draws.acceleration_x,
            draws.acceleration_z,
        ] {
            assert!(-DIRECTION_RANGE <= d && d < DIRECTION_RANGE);
        }
        xs.push(draws.x);
    }
    assert!(xs.iter().any(|x| *x != SPAWN_MIN_X));
    assert!(xs.iter().any(|x| *x != xs[0]));
}

#[test]
fn asteroid_from_the_shortest_directions_has_the_fixed_speed() {
    let draws = SpawnDraws {
        x: 0,
        z: 0,
        velocity_x: 1,
        velocity_z: 1,
        acceleration_x: -1,
        acceleration_z: 1,
    };
    let bundle = asteroid_from_draws(draws);
    assert_eq!(bundle.motion.velocity, Vec3::new(3_535_533_905, 0, 3_535_533_905));
    assert_eq!(bundle.motion.acceleration, Vec3::new(-707, 0, 707));
    assert_eq!(bundle.motion.velocity.length(), VELOCITY_SCALAR - 2);
    let draws = SpawnDraws {
        x: 0,
        z: 0,
        velocity_x: -1,
        velocity_z: 0,
        acceleration_x: 0,
        acceleration_z: -1,
    };
    let bundle = asteroid_from_draws(draws);
    assert_eq!(bundle.motion.velocity, Vec3::new(-5_000_000_000, 0, 0));
    assert_eq!(bundle.motion.acceleration, Vec3::new(0, 0, -1_000));
}

#[test]
fn spawned_asteroid_has_the_fixed_speed_and_radius() {
    for _ in 0..50 {
        let mut timer = AsteroidPlugin.build();
        let bundle = spawn_asteroid(&mut timer, SPAWN_TIME).unwrap();
        assert!(SPAWN_MIN_X <= bundle.position.x && bundle.position.x < SPAWN_MAX_X);
        assert_eq!(bundle.position.y, 0);
        assert!(SPAWN_MIN_Z <= bundle.position.z && bundle.position.z < SPAWN_MAX_Z);
        assert_eq!(bundle.collider.radius, RADIUS);
        assert!(bundle.collider.colliding_with.is_empty());
        let v = bundle.motion.velocity;
        assert_eq!(v.y, 0);
        let speed = v.length();
        assert!(speed == 0 || (VELOCITY_SCALAR - 3 <= speed && speed <= VELOCITY_SCALAR));
        let a = bundle.motion.acceleration;
        assert_eq!(a.y, 0);
        let pull = a.length();
        assert!(pull == 0 || (ACCELERATION_SCALAR - 3 <= pull && pull <= ACCELERATION_SCALAR));
    }
}

#[test]
fn placed_asteroid_is_an_asteroid() {
    let mut world = World::new();
    let mut timer = AsteroidPlugin.build();
    let bundle = spawn_asteroid(&mut timer, SPAWN_TIME).unwrap();
    let position = bundle.position;
    assert!(place_asteroid(&mut world, 41, bundle));
    assert_eq!(world.len(), 1);
    assert_eq!(world.objects[0].id, 41);
    assert_eq!(world.objects[0].category, Category::Asteroid);
    assert_eq!(world.objects[0].position, position);
    assert_eq!(world.objects[0].collider.radius, RADIUS);
    assert_eq!(world.category_of(41), Some(Category::Asteroid));
    let second = spawn_asteroid(&mut timer, SPAWN_TIME).unwrap();
    assert!(!place_asteroid(&mut world, 41, second));
    assert_eq!(world.len(), 1);
    assert_eq!(world.objects[0].position, position);
    assert!(world.is_valid());
}

#[test]
fn frame_clock_loses_no_time() {
    let mut clock = FrameClock::new();
    assert_eq!(clock.carry, 0);
    assert_eq!(clock.advance(16_666_667), 16_666);
    assert_eq!(clock.carry, 667);
    assert_eq!(clock.advance(16_666_667), 16_667);
    assert_eq!(clock.carry, 334);
    assert_eq!(clock.advance(999), 1);
    assert_eq!(clock.carry, 333);
    assert_eq!(clock.advance(0), 0);
    assert_eq!(clock.carry, 333);
    assert_eq!(clock.advance(666), 0);
    assert_eq!(clock.carry, 999);
    assert_eq!(clock.advance(1), 1);
    assert_eq!(clock.carry, 0);
    let mut total = 0u64;
    let mut frames = FrameClock::new();
    for _ in 0..60 {
        total += frames.advance(16_666_667);
    }
    assert_eq!(total * 1_000 + frames.carry, 60 * 16_666_667);
    let mut full = FrameClock { carry: u64::MAX };
    assert_eq!(full.advance(u64::MAX), 36_893_488_147_419_103);
    assert_eq!(full.carry, 230);
}

#[test]
fn rotation_is_speed_times_time() {
    assert_eq!(rotate_asteroid(0), 0);
    assert_eq!(rotate_asteroid(1), 10);
    assert_eq!(rotate_asteroid(TICKS_PER_SECOND), 10_000_000);
    assert_eq!(rotate_asteroid(u64::MAX), 10 * u64::MAX as u128);
}
