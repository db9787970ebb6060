//! A small verified flocking simulation: agents ("boids") move on a 2D
//! plane under four steering rules — alignment, cohesion, pairwise
//! avoidance and goal seeking — followed by damped motion integration
//! and target reassignment.
//!
//! All geometry is fixed-point: a coordinate is an `i64` counting
//! thousandths of a world unit, so the whole core is exact integer
//! arithmetic and every rule carries a proved contract.

pub mod agent;
pub mod avoid;
pub mod flocking;
pub mod laws;
pub mod motion;
pub mod rng;
pub mod seek;
pub mod spawn;
pub mod target;
pub mod tick;
pub mod vec2;
