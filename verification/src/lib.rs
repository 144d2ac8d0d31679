//! A verified core for a terminal "boids" flocking simulation.
//!
//! Agents move in a bounded two-dimensional arena under three classical
//! flocking forces (separation, alignment, cohesion) plus a seek force
//! toward or away from user-placed points of interest.  All geometry is
//! carried out in fixed-point arithmetic: one simulation unit is `SCALE`
//! sub-units, so positions, velocities and radii are plain integers and
//! every step of the force model is verified.

pub mod math;
pub mod poi;
pub mod boid;
pub mod world;
pub mod grid;
pub mod laws;
