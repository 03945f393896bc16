use asteroids::asteroids::{
    handle_asteroid_collision, rotate_asteroid, spawn_asteroid, ASTEROID_RADIUS, SPAWN_RANGE_XZ,
    SPAWN_TIME_MS, VELOCITY_SCALAR,
};
use asteroids::despawn::{despawn_entities, despawn_far_away_entities, survives_culling};
use asteroids::entity::{Entity, Kind};
use asteroids::math::{isqrt, normalize_xz_scaled, Quat, Vec3};
use asteroids::spaceship::{
    movement_speed, spaceship_movement_controls, spaceship_weapon_controlls, spawn_spaceship,
    KeyState, MISSILE_RADIUS, SPACESHIP_RADIUS,
};
use asteroids::timer::SpawnTimer;

fn entity_at(id: u64, kind: Kind, pos: Vec3, colliding: Vec<u64>) -> Entity {
    Entity {
        id,
        kind,
        translation: pos,
        rotation: Quat { x: 0, y: 0, z: 0, w: 1000 },
        velocity: Vec3 { x: 0, y: 0, z: 0 },
        acceleration: Vec3 { x: 0, y: 0, z: 0 },
        radius: 1000,
        colliding,
    }
}

fn no_keys() -> KeyState {
    KeyState {
        back: false,
        forward: false,
        turn_left: false,
        turn_right: false,
        roll_left: false,
        roll_right: false,
        fire: false,
    }
}

fn mag2(v: &Vec3) -> i64 {
    let x = v.x as i64;
    let y = v.y as i64;
    let z = v.z as i64;
    x * x + y * y + z * z
}

// --- spawner -----------------------------------------------------------

#[test]
fn spawn_fires_on_period_and_lands_in_square() {
    for round in 0..20u64 {
        let mut timer = SpawnTimer::new(SPAWN_TIME_MS);
        let spawned = spawn_asteroid(&mut timer, SPAWN_TIME_MS, round);
        let e = spawned.expect("a full period must spawn");
        assert_eq!(e.id, round);
        assert!(matches!(e.kind, Kind::Asteroid));
        assert!(-SPAWN_RANGE_XZ <= e.translation.x && e.translation.x < SPAWN_RANGE_XZ);
        assert_eq!(e.translation.y, 0);
        assert!(-SPAWN_RANGE_XZ <= e.translation.z && e.translation.z < SPAWN_RANGE_XZ);
        assert_eq!(e.radius, ASTEROID_RADIUS);
        assert!(e.colliding.is_empty());
        assert_eq!(e.velocity.y, 0);
        assert_eq!(e.acceleration.y, 0);
        assert!(e.velocity.x.abs() <= VELOCITY_SCALAR);
        assert!(e.velocity.z.abs() <= VELOCITY_SCALAR);
    }
}

#[test]
fn spawn_does_not_fire_before_period() {
    let mut timer = SpawnTimer::new(SPAWN_TIME_MS);
    let spawned = spawn_asteroid(&mut timer, SPAWN_TIME_MS - 1, 7);
    assert!(spawned.is_none());
    let spawned = spawn_asteroid(&mut timer, 1, 8);
    assert!(spawned.is_some());
}

#[test]
fn normalized_direction_has_configured_speed() {
    // A 3-4-5 sample normalizes exactly on the fixed-point grid.
    let v = normalize_xz_scaled(300, 400, 5000);
    assert_eq!(v.x, 3000);
    assert_eq!(v.y, 0);
    assert_eq!(v.z, 4000);
    assert_eq!(mag2(&v), 25_000_000);
    // An axis-aligned sample scales exactly too.
    let v = normalize_xz_scaled(-999, 0, 5000);
    assert_eq!((v.x, v.y, v.z), (-5000, 0, 0));
    // The degenerate zero sample stays zero instead of failing.
    let v = normalize_xz_scaled(0, 0, 5000);
    assert_eq!((v.x, v.y, v.z), (0, 0, 0));
}

#[test]
fn isqrt_rounds_down() {
    assert_eq!(isqrt(0), 0);
    assert_eq!(isqrt(1), 1);
    assert_eq!(isqrt(24), 4);
    assert_eq!(isqrt(25), 5);
    assert_eq!(isqrt(250_000), 500);
    assert_eq!(isqrt(u64::MAX), 0xffff_ffff);
}

#[test]
fn asteroid_spin_scales_with_tick_time() {
    assert_eq!(rotate_asteroid(100), 500);
    assert_eq!(rotate_asteroid(1000), 5000);
    assert_eq!(rotate_asteroid(0), 0);
}

// --- timer -------------------------------------------------------------

#[test]
fn timer_fires_once_after_ten_tenth_ticks() {
    let mut timer = SpawnTimer::new(1000);
    let mut fires = 0;
    for _ in 0..10 {
        if timer.tick(100) {
            fires += 1;
        }
    }
    assert_eq!(fires, 1);
    // The next full run of ten fires exactly once again: the timer rearmed.
    let mut fires = 0;
    for _ in 0..10 {
        if timer.tick(100) {
            fires += 1;
        }
    }
    assert_eq!(fires, 1);
}

#[test]
fn timer_fires_at_most_once_per_tick_and_wraps() {
    let mut timer = SpawnTimer::new(1000);
    let fired = timer.tick(2500);
    assert!(fired);
    assert_eq!(timer.elapsed_ms, 500);
    assert!(!timer.tick(400));
    assert_eq!(timer.elapsed_ms, 900);
}

// --- player controller -------------------------------------------------

#[test]
fn back_wins_when_both_held() {
    let keys = KeyState { back: true, forward: true, ..no_keys() };
    let speed = movement_speed(&keys);
    assert_eq!(speed, -25_000);
    assert_ne!(speed, 0);
}

#[test]
fn movement_controls_replace_velocity_and_scale_rotation() {
    let forward = Vec3 { x: 0, y: 0, z: -1000 };
    let keys = KeyState { forward: true, turn_left: true, roll_right: true, ..no_keys() };
    let u = spaceship_movement_controls(&forward, &keys, 100);
    // velocity = -forward * speed: (0, 0, 1000) scaled by 25 exactly.
    assert_eq!((u.velocity.x, u.velocity.y, u.velocity.z), (0, 0, 25_000));
    assert_eq!(u.yaw_mrad, -250);
    assert_eq!(u.roll_mrad, 250);
    // No keys: the craft stops dead and does not rotate.
    let u = spaceship_movement_controls(&forward, &no_keys(), 100);
    assert_eq!((u.velocity.x, u.velocity.y, u.velocity.z), (0, 0, 0));
    assert_eq!(u.yaw_mrad, 0);
    assert_eq!(u.roll_mrad, 0);
}

#[test]
fn spawned_spaceship_is_at_rest_at_origin() {
    let e = spawn_spaceship(42);
    assert_eq!(e.id, 42);
    assert!(matches!(e.kind, Kind::Spaceship));
    assert_eq!((e.translation.x, e.translation.y, e.translation.z), (0, 0, 0));
    assert_eq!((e.rotation.x, e.rotation.y, e.rotation.z, e.rotation.w), (0, 0, 1000, 0));
    assert_eq!(mag2(&e.velocity), 0);
    assert_eq!(e.radius, SPACESHIP_RADIUS);
}

// --- weapon controller -------------------------------------------------

#[test]
fn holding_fire_spawns_one_missile_per_tick() {
    let translation = Vec3 { x: 0, y: 0, z: 0 };
    let rotation = Quat { x: 0, y: 0, z: 0, w: 1000 };
    let mut spawned = 0;
    for _ in 0..5 {
        if let Some(m) = spaceship_weapon_controlls(true, &translation, &rotation) {
            // |velocity|^2 equals the squared weapon speed for a unit facing.
            assert_eq!(mag2(&m.velocity), 625_000_000);
            assert_eq!(m.radius, MISSILE_RADIUS);
            spawned += 1;
        }
    }
    assert_eq!(spawned, 5);
    assert!(spaceship_weapon_controlls(false, &translation, &rotation).is_none());
}

#[test]
fn missile_derives_from_firer_pose() {
    // Identity facing looks along negative z.
    let translation = Vec3 { x: 1000, y: 0, z: 2000 };
    let rotation = Quat { x: 0, y: 0, z: 0, w: 1000 };
    let m = spaceship_weapon_controlls(true, &translation, &rotation).expect("fire held");
    // forward = (0, 0, -1000); velocity = forward * -25.
    assert_eq!((m.velocity.x, m.velocity.y, m.velocity.z), (0, 0, 25_000));
    // spawn point sits 4 units behind the facing.
    assert_eq!((m.translation.x, m.translation.y, m.translation.z), (1000, 0, 6000));
    // orientation is the firer's composed with the fixed quarter turn.
    assert_eq!((m.rotation.x, m.rotation.y, m.rotation.z, m.rotation.w), (710, 0, 0, 710));
}

// --- collision resolver ------------------------------------------------

#[test]
fn asteroid_among_asteroids_survives() {
    let entities = vec![
        entity_at(1, Kind::Asteroid, Vec3 { x: 0, y: 0, z: 0 }, vec![2]),
        entity_at(2, Kind::Asteroid, Vec3 { x: 100, y: 0, z: 0 }, vec![1]),
    ];
    let doomed = handle_asteroid_collision(&entities);
    assert!(doomed.is_empty());
    let kept = despawn_entities(entities, &doomed);
    assert_eq!(kept.len(), 2);
}

#[test]
fn asteroid_touching_non_asteroid_dies_exactly_once() {
    let entities = vec![
        entity_at(1, Kind::Asteroid, Vec3 { x: 0, y: 0, z: 0 }, vec![2]),
        entity_at(2, Kind::Spaceship, Vec3 { x: 100, y: 0, z: 0 }, vec![1]),
    ];
    let doomed = handle_asteroid_collision(&entities);
    assert_eq!(doomed, vec![1]);
    let kept = despawn_entities(entities, &doomed);
    assert_eq!(kept.len(), 1);
    assert_eq!(kept[0].id, 2);
}

#[test]
fn asteroid_touching_three_non_asteroids_dies_exactly_once() {
    let entities = vec![
        entity_at(1, Kind::Asteroid, Vec3 { x: 0, y: 0, z: 0 }, vec![2, 3, 9]),
        entity_at(2, Kind::Spaceship, Vec3 { x: 100, y: 0, z: 0 }, vec![1]),
        entity_at(3, Kind::Missile, Vec3 { x: -100, y: 0, z: 0 }, vec![1]),
    ];
    // Identifier 9 is an overlap with an entity already gone from the
    // population; it too counts as a non-asteroid contact.
    let doomed = handle_asteroid_collision(&entities);
    assert_eq!(doomed, vec![1]);
}

#[test]
fn resolver_spares_non_asteroids() {
    let entities = vec![
        entity_at(1, Kind::Spaceship, Vec3 { x: 0, y: 0, z: 0 }, vec![2]),
        entity_at(2, Kind::Missile, Vec3 { x: 100, y: 0, z: 0 }, vec![1]),
    ];
    let doomed = handle_asteroid_collision(&entities);
    assert!(doomed.is_empty());
}

// --- culler ------------------------------------------------------------

#[test]
fn culler_destroys_strictly_beyond_threshold() {
    let near = entity_at(1, Kind::Asteroid, Vec3 { x: 99_000, y: 0, z: 0 }, vec![]);
    let boundary = entity_at(2, Kind::Missile, Vec3 { x: 100_000, y: 0, z: 0 }, vec![]);
    let far = entity_at(3, Kind::Spaceship, Vec3 { x: 101_000, y: 0, z: 0 }, vec![]);
    assert!(survives_culling(&near));
    assert!(survives_culling(&boundary));
    assert!(!survives_culling(&far));
    let kept = despawn_far_away_entities(vec![near, boundary, far]);
    let ids: Vec<u64> = kept.iter().map(|e| e.id).collect();
    assert_eq!(ids, vec![1, 2]);
}

#[test]
fn culler_uses_full_three_dimensional_distance() {
    // 60-80-something: (60, 0, 80) scaled to thousandths has length 100.
    let boundary = entity_at(1, Kind::Asteroid, Vec3 { x: 60_000, y: 0, z: 80_000 }, vec![]);
    assert!(survives_culling(&boundary));
    let far = entity_at(2, Kind::Asteroid, Vec3 { x: 60_000, y: 1000, z: 80_000 }, vec![]);
    assert!(!survives_culling(&far));
}
