//! Coordination core of a small real-time arena simulation: a timer-driven
//! hazard spawner with randomized kinematics, controllers turning discrete
//! input into kinematic changes for the player craft and its missiles, a
//! collision resolver that destroys hazards on cross-kind overlap, and a
//! culler that removes entities too far from the origin.
//!
//! All world quantities (coordinates, speeds, angles) are fixed-point values
//! counting thousandths of a unit, so every rule is stated and proved over
//! plain integers.

pub mod asteroids;
pub mod despawn;
pub mod entity;
pub mod math;
pub mod spaceship;
pub mod timer;
