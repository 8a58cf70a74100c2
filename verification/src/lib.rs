//! Simulation core of a top-down two-team tank arcade game.
//!
//! The engine is deterministic fixed-point arithmetic throughout: lengths are
//! milli-pixels, times are microseconds, angles are microradians, and unit
//! vectors are scaled by 1000. A single seeded pseudo-random generator drives
//! world generation, spawn points, AI waypoints and powerup timing.

pub mod combat;
pub mod config;
pub mod entities;
pub mod game;
pub mod input;
pub mod math;
pub mod powerups;
pub mod rng;
pub mod tanks;
pub mod world;
