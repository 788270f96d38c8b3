//! A 2D flocking ("boids") simulation core: a population of agents adjusts
//! velocity each fixed-timestep tick from neighbour positions and velocities
//! (cohesion, alignment, separation), has its speed nudged toward a target
//! band, bounces off the viewport edges, and advances by velocity x timestep.
//!
//! All quantities are fixed-point integers in milli-units: one unit of world
//! space (or of speed, units per second) is the integer 1000. Rule factors
//! are exact rationals applied with truncating (round-toward-zero) division.

pub mod agent;
pub mod bounds;
pub mod flock;
pub mod laws;
pub mod math;
pub mod motion;
pub mod params;
pub mod scan;
pub mod sim;
pub mod spawn;
