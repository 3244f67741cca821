use asteroid_sim::asteroids::handle_asteroid_collisions;
use asteroid_sim::policy::is_destroyed_by;
use asteroid_sim::units::POSITION_UNIT;
use asteroid_sim::units::TICKS_PER_SECOND;
use asteroid_sim::units::VELOCITY_UNIT;
use asteroid_sim::vector::Vec3;
use asteroid_sim::world::Category;
use asteroid_sim::world::MovingObjectBundle;
use asteroid_sim::world::World;

fn still(x: i64, radius: u64) -> MovingObjectBundle {
    MovingObjectBundle::new(Vec3::new(x, 0, 0), Vec3::zero(), Vec3::zero(), radius).unwrap()
}

fn ids(world: &World) -> Vec<u64> {
    world.objects.iter().map(|object| object.id).collect()
}

#[test]
fn policy_table() {
    assert!(!is_destroyed_by(Category::Asteroid, Category::Asteroid));
    assert!(is_destroyed_by(Category::Asteroid, Category::Projectile));
    assert!(is_destroyed_by(Category::Asteroid, Category::Ship));
    assert!(is_destroyed_by(Category::Projectile, Category::Asteroid));
    assert!(!is_destroyed_by(Category::Projectile, Category::Projectile));
    assert!(!is_destroyed_by(Category::Projectile, Category::Ship));
    assert!(is_destroyed_by(Category::Ship, Category::Asteroid));
    assert!(!is_destroyed_by(Category::Ship, Category::Projectile));
    assert!(!is_destroyed_by(Category::Ship, Category::Ship));
}

#[test]
fn head_on_asteroid_pair_collides_and_survives() {
    let radius = (5 * POSITION_UNIT / 2) as u64;
    let mut world = World::new();
    let left = MovingObjectBundle::new(
        Vec3::new(-2 * POSITION_UNIT, 0, 0),
        Vec3::new(VELOCITY_UNIT, 0, 0),
        Vec3::zero(),
        radius,
    )
    .unwrap();
    let right = MovingObjectBundle::new(
        Vec3::new(2 * POSITION_UNIT, 0, 0),
        Vec3::new(-VELOCITY_UNIT, 0, 0),
        Vec3::zero(),
        radius,
    )
    .unwrap();
    assert!(world.spawn(1, Category::Asteroid, left));
    assert!(world.spawn(2, Category::Asteroid, right));
    world.integrate(TICKS_PER_SECOND / 10);
    world.detect_collisions();
    assert_eq!(world.objects[0].collider.colliding_with, vec![2]);
    assert_eq!(world.objects[1].collider.colliding_with, vec![1]);
    let destroyed = handle_asteroid_collisions(&mut world);
    assert!(destroyed.is_empty());
    assert_eq!(ids(&world), vec![1, 2]);
}

#[test]
fn projectile_and_asteroid_overlap_and_the_asteroid_falls() {
    let mut world = World::new();
    assert!(world.spawn(1, Category::Projectile, still(0, 1)));
    assert!(world.spawn(2, Category::Asteroid, still(3, 2)));
    world.detect_collisions();
    assert_eq!(world.objects[0].collider.colliding_with, vec![2]);
    assert_eq!(world.objects[1].collider.colliding_with, vec![1]);
    assert!(world.is_condemned(0));
    assert!(world.is_condemned(1));
    let destroyed = handle_asteroid_collisions(&mut world);
    assert_eq!(destroyed, vec![2]);
    assert_eq!(ids(&world), vec![1]);
    assert_eq!(world.objects[0].collider.colliding_with, vec![2]);
    let destroyed = world.handle_collisions(Category::Projectile);
    assert!(destroyed.is_empty());
    assert_eq!(ids(&world), vec![1]);
}

#[test]
fn projectile_row_first_removes_the_projectile() {
    let mut world = World::new();
    assert!(world.spawn(1, Category::Projectile, still(0, 1)));
    assert!(world.spawn(2, Category::Asteroid, still(3, 2)));
    world.detect_collisions();
    assert_eq!(world.handle_collisions(Category::Projectile), vec![1]);
    assert_eq!(ids(&world), vec![2]);
    assert!(handle_asteroid_collisions(&mut world).is_empty());
    assert_eq!(ids(&world), vec![2]);
}

#[test]
fn ship_is_destroyed_by_an_asteroid_only() {
    let mut world = World::new();
    assert!(world.spawn(1, Category::Ship, still(0, 2)));
    assert!(world.spawn(2, Category::Projectile, still(1, 2)));
    world.detect_collisions();
    assert!(world.handle_collisions(Category::Ship).is_empty());
    assert!(world.spawn(3, Category::Asteroid, still(2, 2)));
    world.detect_collisions();
    assert_eq!(world.handle_collisions(Category::Ship), vec![1]);
    assert_eq!(ids(&world), vec![2, 3]);
}

#[test]
fn pass_removes_all_condemned_and_keeps_order() {
    let mut world = World::new();
    assert!(world.spawn(1, Category::Asteroid, still(0, 2)));
    assert!(world.spawn(2, Category::Asteroid, still(100, 2)));
    assert!(world.spawn(3, Category::Projectile, still(1, 1)));
    assert!(world.spawn(4, Category::Asteroid, still(200, 2)));
    assert!(world.spawn(5, Category::Ship, still(201, 1)));
    assert!(world.spawn(6, Category::Asteroid, still(300, 2)));
    assert!(world.spawn(7, Category::Asteroid, still(2, 2)));
    world.detect_collisions();
    let destroyed = handle_asteroid_collisions(&mut world);
    assert_eq!(destroyed, vec![1, 4, 7]);
    assert_eq!(ids(&world), vec![2, 3, 5, 6]);
}

#[test]
fn stale_identifier_destroys_nothing() {
    let mut world = World::new();
    assert!(world.spawn(1, Category::Asteroid, still(0, 2)));
    assert!(world.spawn(2, Category::Projectile, still(1, 1)));
    world.detect_collisions();
    assert!(world.destroy(2));
    assert_eq!(world.objects[0].collider.colliding_with, vec![2]);
    assert!(!world.is_condemned(0));
    assert!(handle_asteroid_collisions(&mut world).is_empty());
    assert_eq!(ids(&world), vec![1]);
}

#[test]
fn destroying_twice_is_destroying_once() {
    let mut world = World::new();
    assert!(world.spawn(1, Category::Asteroid, still(0, 2)));
    assert!(world.spawn(2, Category::Ship, still(10, 2)));
    assert!(world.spawn(3, Category::Projectile, still(20, 2)));
    assert!(world.destroy(2));
    assert_eq!(ids(&world), vec![1, 3]);
    assert!(!world.destroy(2));
    assert_eq!(ids(&world), vec![1, 3]);
    assert!(!world.destroy(77));
    assert_eq!(ids(&world), vec![1, 3]);
    assert_eq!(world.objects[0].position, Vec3::new(0, 0, 0));
    assert_eq!(world.objects[1].position, Vec3::new(20, 0, 0));
    let mut empty = World::new();
    assert!(!empty.destroy(1));
    assert_eq!(empty.len(), 0);
}

#[test]
fn registry_lookups() {
    let mut world = World::new();
    assert_eq!(world.len(), 0);
    assert!(world.spawn(8, Category::Ship, still(0, 2)));
    assert!(world.spawn(9, Category::Asteroid, still(10, 3)));
    assert!(!world.spawn(8, Category::Projectile, still(50, 4)));
    assert_eq!(world.len(), 2);
    assert_eq!(world.find(8), Some(0));
    assert_eq!(world.find(9), Some(1));
    assert_eq!(world.find(10), None);
    assert!(world.contains(9));
    assert!(!world.contains(10));
    assert_eq!(world.category_of(8), Some(Category::Ship));
    assert_eq!(world.category_of(9), Some(Category::Asteroid));
    assert_eq!(world.category_of(10), None);
    assert_eq!(world.get(9).unwrap().collider.radius, 3);
    assert!(world.get(10).is_none());
    assert_eq!(world.objects[0].category, Category::Ship);
    assert_eq!(world.objects[0].collider.radius, 2);
}
