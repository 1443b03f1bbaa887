//! A projectile-flight engine on fixed-point integers.
//!
//! Lengths are held in millionths of a metre, speeds in millionths of a metre
//! per second, and time in ticks of 1/240000 s, so that the engine's fixed
//! sub-step of 1/240 s is exactly 1000 ticks. Every stored quantity is kept
//! within `fixed::LIMIT`, which lets all intermediate products be formed
//! exactly in 128 bits.

pub mod ballistics;
pub mod campaign;
pub mod fixed;
pub mod game;
pub mod geometry;
pub mod laws;
pub mod model;
pub mod physics;
pub mod status;
pub mod window;
