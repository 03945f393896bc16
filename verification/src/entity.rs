//! The entity population: each simulated object carries an identifier, a
//! kind tag, spatial and kinematic state, and a collider whose overlap set
//! the external collision detector refreshes every tick.

use vstd::prelude::*;
use crate::math::{Quat, Vec3};

verus! {

/// Kind tag of an entity, the closed discriminator the collision resolver
/// switches on.
#[derive(Clone, Copy, PartialEq, Eq, Structural, Debug)]
pub enum Kind {
    /// Procedurally spawned hazard.
    Asteroid,
    /// The player craft, created once at startup.
    Spaceship,
    /// Projectile spawned by the weapon controller.
    Missile,
}

/// One live simulated object.
#[derive(Debug)]
pub struct Entity {
    /// Opaque identifier, unique within the population.
    pub id: u64,
    pub kind: Kind,
    /// World-space position, in fixed-point steps.
    pub translation: Vec3,
    /// World-space orientation.
    pub rotation: Quat,
    /// Velocity vector, integrated externally each tick.
    pub velocity: Vec3,
    /// Acceleration vector, integrated externally each tick.
    pub acceleration: Vec3,
    /// Collider radius used by the external overlap detector.
    pub radius: i32,
    /// Identifiers of the entities currently overlapping this one;
    /// refreshed by the external detector every tick, never cached.
    pub colliding: Vec<u64>,
}

/// No two entities of the population share an identifier.
pub open spec fn distinct_ids(s: Seq<Entity>) -> bool {
    forall|i: int, j: int| 0 <= i < j < s.len() ==> s[i].id != s[j].id
}

} // verus!
