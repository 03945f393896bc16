//! Player craft control: the movement pass turns the three binary control
//! axes into a fresh velocity and a pair of rotation angles every tick, and
//! the weapon pass spawns one missile per tick while the fire control is
//! held.

use vstd::prelude::*;
use crate::math::{
    div_trunc, forward_x, forward_y, forward_z, fp_mul, fp_mul_i32, lemma_div_trunc_abs_le,
    lemma_fp_mul_exact, quat_mul_w, quat_mul_x, quat_mul_y, quat_mul_z, Quat, Vec3,
};

verus! {

/// Signed speed of the forward/back axis, fixed-point units per second.
pub const SPACESHIP_SPEED: i32 = 25_000;

/// Yaw rate of the turn axis, milliradians per second.
pub const SPACESHIP_ROTATION_SPEED: i32 = 2_500;

/// Roll rate of the roll axis, milliradians per second.
pub const SPACESHIP_ROLL_SPEED: i32 = 2_500;

/// Collider radius of the player craft.
pub const SPACESHIP_RADIUS: i32 = 3_000;

/// Missile speed along the firer's facing, fixed-point units per second.
pub const MISSILE_SPEED: i32 = 25_000;

/// How far behind the firer's facing a missile appears.
pub const MISSILE_FORWARD_OFFSET: i32 = 4_000;

/// Collider radius of a missile.
pub const MISSILE_RADIUS: i32 = 1_000;

/// Instantaneous pressed state of the logical controls, read once per tick.
#[derive(Clone, Copy, PartialEq, Eq, Structural, Debug)]
pub struct KeyState {
    pub back: bool,
    pub forward: bool,
    pub turn_left: bool,
    pub turn_right: bool,
    pub roll_left: bool,
    pub roll_right: bool,
    pub fire: bool,
}

/// Signed speed produced by the forward/back axis. The back control is
/// checked first, so holding both opposing controls yields the back
/// branch's value, not zero and not a sum.
pub open spec fn spec_movement_speed(k: KeyState) -> int {
    if k.back {
        -(SPACESHIP_SPEED as int)
    } else if k.forward {
        SPACESHIP_SPEED as int
    } else {
        0
    }
}

/// Signed yaw rate produced by the turn axis; the left control is checked
/// first.
pub open spec fn spec_turn_rate(k: KeyState) -> int {
    if k.turn_left {
        -(SPACESHIP_ROTATION_SPEED as int)
    } else if k.turn_right {
        SPACESHIP_ROTATION_SPEED as int
    } else {
        0
    }
}

/// Signed roll rate produced by the roll axis; the left control is checked
/// first.
pub open spec fn spec_roll_rate(k: KeyState) -> int {
    if k.roll_left {
        -(SPACESHIP_ROLL_SPEED as int)
    } else if k.roll_right {
        SPACESHIP_ROLL_SPEED as int
    } else {
        0
    }
}

/// What the movement pass does to the player entity in one tick.
#[derive(Clone, Copy, PartialEq, Eq, Structural, Debug)]
pub struct SteeringUpdate {
    /// The craft's new velocity, replacing the previous one wholesale.
    pub velocity: Vec3,
    /// Rotation to apply about the vertical axis, milliradians.
    pub yaw_mrad: i32,
    /// Rotation to apply about the craft's local forward axis, milliradians.
    pub roll_mrad: i32,
}

/// Create the single player craft at startup: at the origin, facing along
/// positive z (a half turn about z from the model's rest pose), at rest,
/// with the fixed player collider radius.
pub fn spawn_spaceship(id: u64) -> (e: crate::entity::Entity)
    ensures
        e.id == id,
        e.kind == crate::entity::Kind::Spaceship,
        e.translation == (Vec3 { x: 0, y: 0, z: 0 }),
        e.rotation == (Quat { x: 0, y: 0, z: 1000, w: 0 }),
        e.velocity == (Vec3 { x: 0, y: 0, z: 0 }),
        e.acceleration == (Vec3 { x: 0, y: 0, z: 0 }),
        e.radius == SPACESHIP_RADIUS,
        e.colliding@.len() == 0,
{
    crate::entity::Entity {
        id,
        kind: crate::entity::Kind::Spaceship,
        translation: Vec3 { x: 0, y: 0, z: 0 },
        rotation: Quat { x: 0, y: 0, z: 1000, w: 0 },
        velocity: Vec3 { x: 0, y: 0, z: 0 },
        acceleration: Vec3 { x: 0, y: 0, z: 0 },
        radius: SPACESHIP_RADIUS,
        colliding: Vec::new(),
    }
}

/// Signed speed of the forward/back axis for the given keys.
pub fn movement_speed(keys: &KeyState) -> (s: i32)
    ensures
        s == spec_movement_speed(*keys),
{
    if keys.back {
        -SPACESHIP_SPEED
    } else if keys.forward {
        SPACESHIP_SPEED
    } else {
        0
    }
}

/// Per-tick player control pass. Reads the three control axes and the
/// craft's current facing, and yields the craft's new velocity
/// (`-facing * speed`, replacing any previous velocity with no
/// acceleration-based smoothing) together with the yaw and roll angles for
/// this tick (rate times elapsed seconds).
pub fn spaceship_movement_controls(forward: &Vec3, keys: &KeyState, delta_ms: u32) -> (u:
    SteeringUpdate)
    requires
        -401_000 <= forward.x <= 401_000,
        -401_000 <= forward.y <= 401_000,
        -401_000 <= forward.z <= 401_000,
        delta_ms <= 3_600_000,
    ensures
        u.velocity.x == fp_mul(-(forward.x as int), spec_movement_speed(*keys)),
        u.velocity.y == fp_mul(-(forward.y as int), spec_movement_speed(*keys)),
        u.velocity.z == fp_mul(-(forward.z as int), spec_movement_speed(*keys)),
        u.yaw_mrad == div_trunc(spec_turn_rate(*keys) * delta_ms, 1000),
        u.roll_mrad == div_trunc(spec_roll_rate(*keys) * delta_ms, 1000),
{
    let speed: i32 = movement_speed(keys);
    proof {
        lemma_component_scale_fits(forward.x as int, speed as int);
        lemma_component_scale_fits(forward.y as int, speed as int);
        lemma_component_scale_fits(forward.z as int, speed as int);
    }
    let velocity: Vec3 = forward.neg().scaled(speed);
    let turn: i32 = if keys.turn_left {
        -SPACESHIP_ROTATION_SPEED
    } else if keys.turn_right {
        SPACESHIP_ROTATION_SPEED
    } else {
        0
    };
    let roll: i32 = if keys.roll_left {
        -SPACESHIP_ROLL_SPEED
    } else if keys.roll_right {
        SPACESHIP_ROLL_SPEED
    } else {
        0
    };
    proof {
        lemma_rate_scale_fits(turn as int, delta_ms as int);
        lemma_rate_scale_fits(roll as int, delta_ms as int);
    }
    let yaw_mrad: i32 = fp_mul_i32(turn, delta_ms as i32);
    let roll_mrad: i32 = fp_mul_i32(roll, delta_ms as i32);
    SteeringUpdate { velocity, yaw_mrad, roll_mrad }
}

proof fn lemma_component_scale_fits(c: int, s: int)
    requires
        -401_000 <= c <= 401_000,
        -25_000 <= s <= 25_000,
    ensures
        -0x8000_0000 <= fp_mul(-c, s) <= 0x7fff_ffff,
{
    assert(-(401_000 * 25_000) <= -c * s <= 401_000 * 25_000) by (nonlinear_arith)
        requires
            -401_000 <= c <= 401_000,
            -25_000 <= s <= 25_000,
    ;
    lemma_div_trunc_abs_le(-c * s, 401_000int * 25_000, 1000);
}

proof fn lemma_rate_scale_fits(rate: int, delta: int)
    requires
        -2_500 <= rate <= 2_500,
        0 <= delta <= 3_600_000,
    ensures
        -0x8000_0000 <= fp_mul(rate, delta) <= 0x7fff_ffff,
{
    assert(-(2_500 * 3_600_000) <= rate * delta <= 2_500 * 3_600_000) by (nonlinear_arith)
        requires
            -2_500 <= rate <= 2_500,
            0 <= delta <= 3_600_000,
    ;
    lemma_div_trunc_abs_le(rate * delta, 2_500int * 3_600_000, 1000);
}

/// Everything needed to create one missile entity.
#[derive(Clone, Copy, PartialEq, Eq, Structural, Debug)]
pub struct MissileSpawn {
    /// Firer's position offset backwards along its facing.
    pub translation: Vec3,
    /// Firer's orientation composed with a fixed quarter turn, so the
    /// missile model aligns with its travel direction.
    pub rotation: Quat,
    /// The firer's facing scaled by the fixed missile speed.
    pub velocity: Vec3,
    pub radius: i32,
}

/// Per-tick weapon pass. Level-triggered with no cooldown: exactly one
/// missile spawns each tick the fire control is held, none otherwise.
pub fn spaceship_weapon_controlls(fire: bool, translation: &Vec3, rotation: &Quat) -> (m: Option<
    MissileSpawn>)
    requires
        rotation.in_range(10_000),
        -1_000_000_000 <= translation.x <= 1_000_000_000,
        -1_000_000_000 <= translation.y <= 1_000_000_000,
        -1_000_000_000 <= translation.z <= 1_000_000_000,
    ensures
        m is Some <==> fire,
        m matches Some(sp) ==> {
            &&& sp.velocity.x == fp_mul(forward_x(*rotation), -(MISSILE_SPEED as int))
            &&& sp.velocity.y == fp_mul(forward_y(*rotation), -(MISSILE_SPEED as int))
            &&& sp.velocity.z == fp_mul(forward_z(*rotation), -(MISSILE_SPEED as int))
            &&& sp.translation.x == translation.x + fp_mul(
                -forward_x(*rotation),
                MISSILE_FORWARD_OFFSET as int,
            )
            &&& sp.translation.y == translation.y + fp_mul(
                -forward_y(*rotation),
                MISSILE_FORWARD_OFFSET as int,
            )
            &&& sp.translation.z == translation.z + fp_mul(
                -forward_z(*rotation),
                MISSILE_FORWARD_OFFSET as int,
            )
            &&& sp.rotation.x == quat_mul_x(*rotation, (Quat { x: 710, y: 0, z: 0, w: 710 }))
            &&& sp.rotation.y == quat_mul_y(*rotation, (Quat { x: 710, y: 0, z: 0, w: 710 }))
            &&& sp.rotation.z == quat_mul_z(*rotation, (Quat { x: 710, y: 0, z: 0, w: 710 }))
            &&& sp.rotation.w == quat_mul_w(*rotation, (Quat { x: 710, y: 0, z: 0, w: 710 }))
            &&& sp.radius == MISSILE_RADIUS
        },
{
    if fire {
        let fwd: Vec3 = rotation.forward();
        proof {
            lemma_component_scale_fits_missile(fwd.x as int);
            lemma_component_scale_fits_missile(fwd.y as int);
            lemma_component_scale_fits_missile(fwd.z as int);
        }
        let velocity: Vec3 = fwd.scaled(-MISSILE_SPEED);
        let offset: Vec3 = fwd.neg().scaled(MISSILE_FORWARD_OFFSET);
        let spawn_translation: Vec3 = translation.add(&offset);
        let quarter: Quat = Quat { x: 710, y: 0, z: 0, w: 710 };
        let spawn_rotation: Quat = rotation.mul(&quarter);
        Some(
            MissileSpawn {
                translation: spawn_translation,
                rotation: spawn_rotation,
                velocity,
                radius: MISSILE_RADIUS,
            },
        )
    } else {
        None
    }
}

proof fn lemma_component_scale_fits_missile(c: int)
    requires
        -401_000 <= c <= 401_000,
    ensures
        -0x8000_0000 <= fp_mul(c, -25_000) <= 0x7fff_ffff,
        -0x8000_0000 <= fp_mul(-c, 4_000) <= 0x7fff_ffff,
        -1_700_000 <= fp_mul(-c, 4_000) <= 1_700_000,
{
    assert(-(401_000 * 25_000) <= c * -25_000 <= 401_000 * 25_000) by (nonlinear_arith)
        requires
            -401_000 <= c <= 401_000,
    ;
    lemma_div_trunc_abs_le(c * -25_000, 401_000int * 25_000, 1000);
    assert(-(401_000 * 4_000) <= -c * 4_000 <= 401_000 * 4_000) by (nonlinear_arith)
        requires
            -401_000 <= c <= 401_000,
    ;
    lemma_div_trunc_abs_le(-c * 4_000, 401_000int * 4_000, 1000);
}

/// While the fire control is held, every tick spawns a missile whose
/// velocity is an exact multiple of the facing: for a facing on the unit
/// sphere of the fixed-point grid, the missile's squared speed equals the
/// squared weapon speed exactly.
pub proof fn lemma_missile_speed(f: Vec3)
    requires
        f.mag2() == 1_000_000,
    ensures
        ({
            let vx = fp_mul(f.x as int, -(MISSILE_SPEED as int));
            let vy = fp_mul(f.y as int, -(MISSILE_SPEED as int));
            let vz = fp_mul(f.z as int, -(MISSILE_SPEED as int));
            vx * vx + vy * vy + vz * vz == 625_000_000
        }),
{
    lemma_fp_mul_exact(f.x as int, -25);
    lemma_fp_mul_exact(f.y as int, -25);
    lemma_fp_mul_exact(f.z as int, -25);
    assert(1000 * -25 == -(MISSILE_SPEED as int));
    let vx = fp_mul(f.x as int, -(MISSILE_SPEED as int));
    let vy = fp_mul(f.y as int, -(MISSILE_SPEED as int));
    let vz = fp_mul(f.z as int, -(MISSILE_SPEED as int));
    assert(vx * vx + vy * vy + vz * vz == 625 * (f.x * f.x + f.y * f.y + f.z * f.z))
        by (nonlinear_arith)
        requires
            vx == f.x * -25,
            vy == f.y * -25,
            vz == f.z * -25,
    ;
}

/// How many missiles a run of ticks spawns: one for every tick whose fire
/// control was held.
pub open spec fn spec_missiles_spawned(fires: Seq<bool>) -> nat
    decreases fires.len(),
{
    if fires.len() == 0 {
        0
    } else {
        spec_missiles_spawned(fires.drop_last()) + if fires.last() {
            1nat
        } else {
            0nat
        }
    }
}

/// Holding the fire control for `n` consecutive ticks spawns exactly `n`
/// missiles: the firing is level-triggered with no rate limiting.
pub proof fn lemma_fire_held_spawns_each_tick(fires: Seq<bool>)
    requires
        forall|i: int| 0 <= i < fires.len() ==> fires[i],
    ensures
        spec_missiles_spawned(fires) == fires.len(),
    decreases fires.len(),
{
    if fires.len() > 0 {
        lemma_fire_held_spawns_each_tick(fires.drop_last());
    }
}

} // verus!
