//! Simulation core of a toroidal-space arcade game: an entity store, fixed-point
//! physics, boundary wrapping, collision detection and resolution, deferred
//! creation and destruction, and a particle system.
//!
//! All quantities are fixed-point integers: lengths in thousandths of a playfield
//! unit, angles in thousandths of a degree, times in milliseconds.

pub mod components;
pub mod geometry;
pub mod physics;
pub mod collision;
pub mod game;
pub mod particles;
pub mod store;
pub mod queue;
pub mod effects;
pub mod controls;
pub mod sim;
mod random;
