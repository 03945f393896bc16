//! The hazard side of the simulation: the timer-driven spawner that creates
//! asteroids with randomized kinematics, and the collision resolver that
//! destroys any asteroid recorded as overlapping a non-asteroid.

use vstd::prelude::*;
use crate::entity::{distinct_ids, Entity, Kind};
use crate::math::{
    div_trunc, is_sqrt_floor, lemma_sqrt_floor_is_sqrt, norm_coord, normalize_xz_scaled,
    pair_mag2, sqrt_floor, Quat, Vec3,
};
use crate::timer::SpawnTimer;

verus! {

/// Speed of a freshly spawned asteroid, fixed-point steps per second.
pub const VELOCITY_SCALAR: i32 = 5_000;

/// Acceleration magnitude of a freshly spawned asteroid.
pub const ACCELERATION_SCALAR: i32 = 5_000;

/// Half-width of the square spawn region around the origin, on the ground
/// plane.
pub const SPAWN_RANGE_XZ: i32 = 20_000;

/// Spawn timer period, milliseconds.
pub const SPAWN_TIME_MS: u32 = 1_000;

/// Collider radius of an asteroid.
pub const ASTEROID_RADIUS: i32 = 2_000;

/// Relies on `rand::Rng::gen_range` over the half-open integer range
/// `lo..hi` on a thread-local generator: the sample lies in the range,
/// which must be non-empty (an empty range panics).
#[verifier::external_body]
fn sample_range(lo: i32, hi: i32) -> (r: i32)
    requires
        lo < hi,
    ensures
        lo <= r < hi,
{
    rand::Rng::gen_range(&mut rand::thread_rng(), lo..hi)
}

/// What holds of a freshly sampled direction scaled by `s`: the vector is
/// the normalize-or-zero of some ground-plane sample whose axes were drawn
/// independently from one fixed-point unit below zero up to one above,
/// scaled by `s`.
pub open spec fn is_sampled_scaled_dir(v: Vec3, s: int) -> bool {
    exists|x: int, z: int|
        {
            &&& -1000 <= x < 1000
            &&& -1000 <= z < 1000
            &&& #[trigger] pair_mag2(x, z) == 0 ==> v.is_zero()
            &&& pair_mag2(x, z) != 0 ==> v.x == norm_coord(x, pair_mag2(x, z), s) && v.y == 0
                && v.z == norm_coord(z, pair_mag2(x, z), s)
        }
}

/// Draw a random ground-plane direction and scale it by `s`: both axes are
/// sampled uniformly, the pair is normalized (a zero sample stays zero
/// rather than failing), and the result is scaled by `s`.
pub fn sample_scaled_direction(s: i32) -> (v: Vec3)
    requires
        0 <= s <= 1_000_000,
    ensures
        is_sampled_scaled_dir(v, s as int),
        -s <= v.x <= s,
        v.y == 0,
        -s <= v.z <= s,
{
    let dx = sample_range(-1000, 1000);
    let dz = sample_range(-1000, 1000);
    let v = normalize_xz_scaled(dx, dz, s);
    proof {
        assert(pair_mag2(dx as int, dz as int) == (dx as int) * (dx as int) + (dz as int) * (
        dz as int));
    }
    v
}

/// Spawner pass. Advances the spawn timer by the elapsed tick time; each
/// time a period completes, creates exactly one asteroid whose position is
/// sampled uniformly from the fixed square around the origin and whose
/// velocity and acceleration are independent random directions scaled by
/// the fixed scalars.
pub fn spawn_asteroid(timer: &mut SpawnTimer, delta_ms: u32, id: u64) -> (spawned: Option<Entity>)
    requires
        old(timer).wf(),
    ensures
        final(timer).wf(),
        final(timer).period_ms == old(timer).period_ms,
        final(timer).elapsed_ms == old(timer).spec_elapsed_after(delta_ms),
        spawned is Some <==> old(timer).spec_fires(delta_ms),
        spawned matches Some(e) ==> {
            &&& e.id == id
            &&& e.kind == Kind::Asteroid
            &&& -(SPAWN_RANGE_XZ as int) <= e.translation.x < SPAWN_RANGE_XZ as int
            &&& e.translation.y == 0
            &&& -(SPAWN_RANGE_XZ as int) <= e.translation.z < SPAWN_RANGE_XZ as int
            &&& e.rotation == (Quat { x: 0, y: 0, z: 0, w: 1000 })
            &&& is_sampled_scaled_dir(e.velocity, VELOCITY_SCALAR as int)
            &&& is_sampled_scaled_dir(e.acceleration, ACCELERATION_SCALAR as int)
            &&& e.radius == ASTEROID_RADIUS
            &&& e.colliding@.len() == 0
        },
{
    let fired = timer.tick(delta_ms);
    if !fired {
        return None;
    }
    let px = sample_range(-SPAWN_RANGE_XZ, SPAWN_RANGE_XZ);
    let pz = sample_range(-SPAWN_RANGE_XZ, SPAWN_RANGE_XZ);
    let velocity = sample_scaled_direction(VELOCITY_SCALAR);
    let acceleration = sample_scaled_direction(ACCELERATION_SCALAR);
    Some(
        Entity {
            id,
            kind: Kind::Asteroid,
            translation: Vec3 { x: px, y: 0, z: pz },
            rotation: Quat::identity(),
            velocity,
            acceleration,
            radius: ASTEROID_RADIUS,
            colliding: Vec::new(),
        },
    )
}

/// Spin rate of an asteroid about its local z axis, milliradians per
/// second.
pub const ASTEROID_ROTATION_SPEED: i32 = 5_000;

/// Per-tick asteroid spin pass: the angle, in milliradians, by which every
/// asteroid rotates about its local z axis this tick (rate times elapsed
/// seconds).
pub fn rotate_asteroid(delta_ms: u32) -> (angle_mrad: i32)
    requires
        delta_ms <= 3_600_000,
    ensures
        angle_mrad == div_trunc((ASTEROID_ROTATION_SPEED as int) * delta_ms, 1000),
{
    proof {
        assert(0 <= (ASTEROID_ROTATION_SPEED as int) * delta_ms <= 5_000 * 3_600_000)
            by (nonlinear_arith)
            requires
                0 <= delta_ms <= 3_600_000,
        ;
        crate::math::lemma_div_trunc_abs_le(
            (ASTEROID_ROTATION_SPEED as int) * delta_ms,
            5_000int * 3_600_000,
            1000,
        );
    }
    crate::math::fp_mul_i32(ASTEROID_ROTATION_SPEED, delta_ms as i32)
}

proof fn lemma_norm_coord_sq_bounds(c: int, n: int, m: int)
    requires
        is_sqrt_floor(n, m),
        1 <= m <= 1414,
        c * c <= n,
    ensures
        ({
            let v = div_trunc(c * 5000, m);
            let a = if c >= 0 {
                c
            } else {
                -c
            };
            &&& m * m * (v * v) <= a * a * 25_000_000
            &&& m * m * (v * v) >= a * a * 25_000_000 - 10_000 * m * a
        }),
{
    let v = div_trunc(c * 5000, m);
    let a = if c >= 0 {
        c
    } else {
        -c
    };
    let p = a * 5000;
    let u = p / m;
    assert(v * v == u * u) by (nonlinear_arith)
        requires
            v == div_trunc(c * 5000, m),
            a == (if c >= 0 {
                c
            } else {
                -c
            }),
            p == a * 5000,
            u == p / m,
            m >= 1,
    ;
    assert(0 <= u * m <= p && p < u * m + m) by (nonlinear_arith)
        requires
            u == p / m,
            p >= 0,
            m >= 1,
    ;
    assert(u * m * (u * m) <= p * p) by (nonlinear_arith)
        requires
            0 <= u * m <= p,
    ;
    assert(m * m * (u * u) == u * m * (u * m)) by (nonlinear_arith);
    assert(p * p == a * a * 25_000_000) by (nonlinear_arith)
        requires
            p == a * 5000,
    ;
    if p >= m {
        assert(u * m * (u * m) >= (p - m) * (p - m)) by (nonlinear_arith)
            requires
                u * m >= p - m >= 0,
        ;
        assert((p - m) * (p - m) >= a * a * 25_000_000 - 10_000 * m * a) by (nonlinear_arith)
            requires
                p == a * 5000,
                m >= 1,
                a >= 0,
        ;
    } else {
        assert(a == 0) by (nonlinear_arith)
            requires
                p == a * 5000,
                p < m,
                m <= 1414,
                a >= 0,
        ;
        assert(u == 0) by (nonlinear_arith)
            requires
                u == p / m,
                p == 0,
                m >= 1,
        ;
    }
}

/// The kinematic half of the spawn law: a sampled direction whose raw
/// ground-plane sample is at least half a fixed-point unit long scales to
/// the configured spawn speed up to fixed-point rounding — the squared
/// magnitude of the scaled vector lies within [24_980_000, 25_100_000]
/// around the exact 25_000_000. Degenerate samples shorter than half a unit
/// lose precision to the integer normalization and are excluded here; the
/// exactly-zero sample yields the zero vector by the spawner's contract.
pub proof fn lemma_sampled_speed(x: int, z: int)
    requires
        -1000 <= x < 1000,
        -1000 <= z < 1000,
        pair_mag2(x, z) >= 250_000,
    ensures
        ({
            let n = pair_mag2(x, z);
            let vx = norm_coord(x, n, 5000);
            let vz = norm_coord(z, n, 5000);
            24_980_000 <= vx * vx + vz * vz <= 25_100_000
        }),
{
    let n = pair_mag2(x, z);
    assert(n <= 2_000_000) by (nonlinear_arith)
        requires
            n == x * x + z * z,
            -1000 <= x <= 1000,
            -1000 <= z <= 1000,
    ;
    lemma_sqrt_floor_is_sqrt(n as nat);
    let m = sqrt_floor(n as nat) as int;
    assert(500 <= m && m <= 1414) by (nonlinear_arith)
        requires
            m >= 0,
            m * m <= n,
            n < (m + 1) * (m + 1),
            250_000 <= n <= 2_000_000,
    ;
    let ax = if x >= 0 {
        x
    } else {
        -x
    };
    let az = if z >= 0 {
        z
    } else {
        -z
    };
    assert(x * x <= n && z * z <= n) by (nonlinear_arith)
        requires
            n == x * x + z * z,
    ;
    assert(ax <= m && az <= m) by (nonlinear_arith)
        requires
            n == x * x + z * z,
            n < (m + 1) * (m + 1),
            m >= 0,
            ax == (if x >= 0 { x } else { -x }),
            az == (if z >= 0 { z } else { -z }),
    ;
    lemma_norm_coord_sq_bounds(x, n, m);
    lemma_norm_coord_sq_bounds(z, n, m);
    let vx = norm_coord(x, n, 5000);
    let vz = norm_coord(z, n, 5000);
    assert(vx == div_trunc(x * 5000, m) && vz == div_trunc(z * 5000, m));
    let s2 = vx * vx + vz * vz;
    assert(m * m * s2 <= 25_000_000 * n) by (nonlinear_arith)
        requires
            s2 == vx * vx + vz * vz,
            m * m * (vx * vx) <= ax * ax * 25_000_000,
            m * m * (vz * vz) <= az * az * 25_000_000,
            ax == (if x >= 0 { x } else { -x }),
            az == (if z >= 0 { z } else { -z }),
            n == x * x + z * z,
    ;
    assert(n <= m * m + 2 * m) by (nonlinear_arith)
        requires
            n < (m + 1) * (m + 1),
    ;
    assert(s2 <= 25_100_000) by (nonlinear_arith)
        requires
            m * m * s2 <= 25_000_000 * n,
            n <= m * m + 2 * m,
            500 <= m,
    ;
    assert(m * m * s2 >= 25_000_000 * n - 10_000 * m * (ax + az)) by (nonlinear_arith)
        requires
            s2 == vx * vx + vz * vz,
            m * m * (vx * vx) >= ax * ax * 25_000_000 - 10_000 * m * ax,
            m * m * (vz * vz) >= az * az * 25_000_000 - 10_000 * m * az,
            ax == (if x >= 0 { x } else { -x }),
            az == (if z >= 0 { z } else { -z }),
            n == x * x + z * z,
    ;
    assert(s2 >= 24_980_000) by (nonlinear_arith)
        requires
            m * m * s2 >= 25_000_000 * n - 10_000 * m * (ax + az),
            n >= m * m,
            ax <= m,
            az <= m,
            ax >= 0,
            az >= 0,
            500 <= m,
    ;
}

/// Whether some entity of the population is an asteroid with this
/// identifier.
pub open spec fn is_asteroid_id(s: Seq<Entity>, id: u64) -> bool {
    exists|j: int| 0 <= j < s.len() && (#[trigger] s[j]).id == id && s[j].kind == Kind::Asteroid
}

/// Whether the resolver destroys `e` this tick: `e` is an asteroid that
/// records an overlap with something other than a live asteroid.
pub open spec fn collision_dooms(s: Seq<Entity>, e: Entity) -> bool {
    e.kind == Kind::Asteroid && exists|k: int|
        0 <= k < e.colliding@.len() && !is_asteroid_id(s, #[trigger] e.colliding@[k])
}

/// The identifiers the resolver destroys this tick, in population order.
pub open spec fn spec_doomed_ids(s: Seq<Entity>) -> Seq<u64> {
    s.filter(|e: Entity| collision_dooms(s, e)).map_values(|e: Entity| e.id)
}

/// The identifiers the resolver lists among the first `n` entities.
spec fn spec_doomed_ids_prefix(s: Seq<Entity>, n: int) -> Seq<u64> {
    s.take(n).filter(|e: Entity| collision_dooms(s, e)).map_values(|e: Entity| e.id)
}

/// Whether the population holds an asteroid with identifier `id`.
fn asteroid_with_id(entities: &Vec<Entity>, id: u64) -> (found: bool)
    ensures
        found == is_asteroid_id(entities@, id),
{
    let mut i: usize = 0;
    while i < entities.len()
        invariant
            i <= entities@.len(),
            forall|j: int|
                0 <= j < i ==> !((#[trigger] entities@[j]).id == id && entities@[j].kind
                    == Kind::Asteroid),
        decreases entities@.len() - i,
    {
        let e = &entities[i];
        if e.id == id && matches!(e.kind, Kind::Asteroid) {
            proof {
                assert((entities@[i as int]).id == id && entities@[i as int].kind
                    == Kind::Asteroid);
            }
            return true;
        }
        i = i + 1;
    }
    false
}

/// Whether the resolver destroys this entity, judged against the whole
/// population snapshot.
pub fn collision_dooms_entity(entities: &Vec<Entity>, e: &Entity) -> (doomed: bool)
    ensures
        doomed == collision_dooms(entities@, *e),
{
    if !matches!(e.kind, Kind::Asteroid) {
        return false;
    }
    let mut k: usize = 0;
    while k < e.colliding.len()
        invariant
            e.kind == Kind::Asteroid,
            k <= e.colliding@.len(),
            forall|j: int| 0 <= j < k ==> is_asteroid_id(entities@, #[trigger] e.colliding@[j]),
        decreases e.colliding@.len() - k,
    {
        if !asteroid_with_id(entities, e.colliding[k]) {
            proof {
                assert(!is_asteroid_id(entities@, e.colliding@[k as int]));
                assert(collision_dooms(entities@, *e));
            }
            return true;
        }
        k = k + 1;
    }
    false
}

/// Collision resolver pass. For every asteroid, inspect its overlap set as
/// recorded by the external detector this tick; an asteroid overlapping
/// only other asteroids is spared, while one overlapping anything else is
/// listed for destruction, once, in population order. Destruction is
/// deferred: apply the returned list at the end of the pass.
pub fn handle_asteroid_collision(entities: &Vec<Entity>) -> (doomed: Vec<u64>)
    ensures
        doomed@ == spec_doomed_ids(entities@),
{
    let ghost s = entities@;
    let ghost pred = |e: Entity| collision_dooms(s, e);
    let ghost ids = |e: Entity| e.id;
    let mut doomed: Vec<u64> = Vec::new();
    let mut i: usize = 0;
    proof {
        assert(s.take(0) =~= Seq::<Entity>::empty());
        assert(Seq::<Entity>::empty().filter(pred) =~= Seq::<Entity>::empty()) by {
            reveal(vstd::seq::Seq::filter);
        }
        assert(Seq::<Entity>::empty().map_values(ids) =~= Seq::<u64>::empty());
    }
    while i < entities.len()
        invariant
            s == entities@,
            i <= s.len(),
            doomed@ == s.take(i as int).filter(pred).map_values(ids),
            pred == (|e: Entity| collision_dooms(s, e)),
            ids == (|e: Entity| e.id),
        decreases s.len() - i,
    {
        let e = &entities[i];
        proof {
            assert(s.take(i + 1) =~= s.take(i as int).push(s[i as int]));
            s.take(i as int).lemma_filter_push(s[i as int], pred);
            if pred(s[i as int]) {
                assert(s.take(i as int).filter(pred).push(s[i as int]).map_values(ids) =~= s.take(
                i as int).filter(pred).map_values(ids).push(s[i as int].id));
            }
        }
        if collision_dooms_entity(entities, e) {
            doomed.push(e.id);
        }
        i = i + 1;
    }
    proof {
        assert(s.take(s.len() as int) =~= s);
    }
    doomed
}

proof fn lemma_doomed_prefix(s: Seq<Entity>, n: int)
    requires
        distinct_ids(s),
        0 <= n <= s.len(),
    ensures
        spec_doomed_ids_prefix(s, n).no_duplicates(),
        forall|id: u64| #[trigger] spec_doomed_ids_prefix(s, n).contains(id) ==> exists|j: int|
            0 <= j < n && (#[trigger] s[j]).id == id && collision_dooms(s, s[j]),
    decreases n,
{
    let pred = |e: Entity| collision_dooms(s, e);
    let ids = |e: Entity| e.id;
    if n == 0 {
        assert(s.take(0) =~= Seq::<Entity>::empty());
        assert(Seq::<Entity>::empty().filter(pred) =~= Seq::<Entity>::empty()) by {
            reveal(vstd::seq::Seq::filter);
        }
        assert(Seq::<Entity>::empty().map_values(ids) =~= Seq::<u64>::empty());
    } else {
        lemma_doomed_prefix(s, n - 1);
        let t = s.take(n - 1);
        let prev = spec_doomed_ids_prefix(s, n - 1);
        let cur = spec_doomed_ids_prefix(s, n);
        assert(prev == t.filter(pred).map_values(ids));
        assert(cur == s.take(n).filter(pred).map_values(ids));
        assert(s.take(n) =~= t.push(s[n - 1]));
        t.lemma_filter_push(s[n - 1], pred);
        if pred(s[n - 1]) {
            assert(t.filter(pred).push(s[n - 1]).map_values(ids) =~= prev.push(s[n - 1].id));
            assert(cur == prev.push(s[n - 1].id));
            assert(!prev.contains(s[n - 1].id)) by {
                if prev.contains(s[n - 1].id) {
                    let j = choose|j: int|
                        0 <= j < n - 1 && (#[trigger] s[j]).id == s[n - 1].id && collision_dooms(
                            s,
                            s[j],
                        );
                    assert(s[j].id != s[n - 1].id);
                }
            }
            assert(cur.no_duplicates()) by {
                assert forall|a: int, b: int|
                    0 <= a < cur.len() && 0 <= b < cur.len() && a != b implies cur[a] != cur[b] by {
                    if a < prev.len() && b < prev.len() {
                        assert(cur[a] == prev[a] && cur[b] == prev[b]);
                    } else if a < prev.len() {
                        assert(cur[b] == s[n - 1].id);
                        if cur[a] == cur[b] {
                            assert(prev[a] == s[n - 1].id);
                            assert(prev.contains(s[n - 1].id));
                        }
                    } else {
                        assert(cur[a] == s[n - 1].id);
                        if cur[a] == cur[b] {
                            assert(prev[b] == s[n - 1].id);
                            assert(prev.contains(s[n - 1].id));
                        }
                    }
                }
            }
            assert forall|id: u64| #[trigger] cur.contains(id) implies exists|j: int|
                0 <= j < n && (#[trigger] s[j]).id == id && collision_dooms(s, s[j]) by {
                let m = choose|m: int| 0 <= m < cur.len() && cur[m] == id;
                if m < prev.len() {
                    assert(prev[m] == id);
                    assert(prev.contains(id));
                } else {
                    assert(s[n - 1].id == id && collision_dooms(s, s[n - 1]));
                }
            }
        } else {
            assert(cur == prev);
        }
    }
}

/// The resolver destroys a doomed asteroid exactly once per tick: each
/// listed identifier belongs to a doomed asteroid of the population, and no
/// identifier is listed twice, however many non-asteroid overlaps the
/// asteroid records simultaneously.
pub proof fn lemma_destroyed_once(s: Seq<Entity>)
    requires
        distinct_ids(s),
    ensures
        spec_doomed_ids(s).no_duplicates(),
        forall|id: u64| #[trigger] spec_doomed_ids(s).contains(id) ==> exists|j: int|
            0 <= j < s.len() && (#[trigger] s[j]).id == id && collision_dooms(s, s[j]),
{
    lemma_doomed_prefix(s, s.len() as int);
    assert(s.take(s.len() as int) =~= s);
}

/// An asteroid overlapping only other asteroids survives the tick: the
/// resolver does not list it, and applying the destruction list keeps it in
/// the population.
pub proof fn lemma_same_kind_overlaps_survive(s: Seq<Entity>, i: int)
    requires
        distinct_ids(s),
        0 <= i < s.len(),
        s[i].kind == Kind::Asteroid,
        forall|k: int|
            0 <= k < s[i].colliding@.len() ==> is_asteroid_id(s, #[trigger] s[i].colliding@[k]),
    ensures
        !collision_dooms(s, s[i]),
        !spec_doomed_ids(s).contains(s[i].id),
        crate::despawn::spec_despawned(s, spec_doomed_ids(s)).contains(s[i]),
{
    lemma_destroyed_once(s);
    if spec_doomed_ids(s).contains(s[i].id) {
        let j = choose|j: int|
            0 <= j < s.len() && (#[trigger] s[j]).id == s[i].id && collision_dooms(s, s[j]);
        if j < i {
            assert(s[j].id != s[i].id);
        } else if i < j {
            assert(s[i].id != s[j].id);
        }
        assert(j == i);
        assert(false);
    }
    s.lemma_filter_contains(|e: Entity| !spec_doomed_ids(s).contains(e.id), i);
}

} // verus!
