use asteroid_sim::asteroids::SpawnTimer;
use asteroid_sim::collision::Collider;
use asteroid_sim::collision::MAX_RADIUS;
use asteroid_sim::timer::MAX_INTERVAL;
use asteroid_sim::vector::Vec3;
use asteroid_sim::world::Category;
use asteroid_sim::world::MovingObjectBundle;
use asteroid_sim::world::World;

fn bundle(radius: u64) -> MovingObjectBundle {
    MovingObjectBundle::new(Vec3::zero(), Vec3::zero(), Vec3::zero(), radius).unwrap()
}

#[test]
fn collider_validity() {
    let mut collider = Collider::new(4).unwrap();
    assert!(collider.is_valid());
    collider.colliding_with = vec![1, 2, 3];
    assert!(collider.is_valid());
    collider.colliding_with = vec![1, 2, 1];
    assert!(!collider.is_valid());
    collider.colliding_with = vec![2, 2];
    assert!(!collider.is_valid());
    collider.colliding_with = vec![];
    collider.radius = 0;
    assert!(!collider.is_valid());
    collider.radius = MAX_RADIUS;
    assert!(collider.is_valid());
    collider.radius = MAX_RADIUS + 1;
    assert!(!collider.is_valid());
}

#[test]
fn bundle_validity() {
    let mut fresh = bundle(3);
    assert!(fresh.is_valid());
    fresh.collider.colliding_with.push(9);
    assert!(!fresh.is_valid());
    fresh.collider.colliding_with.clear();
    fresh.collider.radius = 0;
    assert!(!fresh.is_valid());
}

#[test]
fn world_validity() {
    let mut world = World::new();
    assert!(world.is_valid());
    assert!(world.spawn(1, Category::Asteroid, bundle(2)));
    assert!(world.spawn(2, Category::Ship, bundle(2)));
    assert!(world.spawn(3, Category::Projectile, bundle(2)));
    assert!(world.is_valid());
    world.detect_collisions();
    assert!(world.is_valid());
    assert!(world.objects[0].is_valid());
    world.objects[2].id = 1;
    assert!(!world.is_valid());
    world.objects[2].id = 3;
    assert!(world.is_valid());
    world.objects[1].collider.colliding_with.push(2);
    assert!(!world.objects[1].is_valid());
    assert!(!world.is_valid());
    world.objects[1].collider.colliding_with.pop();
    world.objects[1].collider.radius = 0;
    assert!(!world.is_valid());
}

#[test]
fn timer_validity() {
    assert!(SpawnTimer { elapsed: 0, interval: 1 }.is_valid());
    assert!(SpawnTimer { elapsed: 5, interval: 6 }.is_valid());
    assert!(!SpawnTimer { elapsed: 6, interval: 6 }.is_valid());
    assert!(!SpawnTimer { elapsed: 0, interval: 0 }.is_valid());
    assert!(SpawnTimer { elapsed: 0, interval: MAX_INTERVAL }.is_valid());
    assert!(!SpawnTimer { elapsed: 0, interval: MAX_INTERVAL + 1 }.is_valid());
}
