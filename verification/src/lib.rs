//! A 2D particle/spring physics toy: point masses connected by Hookean
//! springs under gravity, stepped by explicit Euler integration.
//!
//! All quantities are fixed-point numbers: an `i64` holding `SCALE` steps
//! per world unit. Arithmetic saturates at `LIMIT` instead of overflowing;
//! this hardening choice replaces unbounded growth with a documented clamp,
//! so every operation is total and every trajectory is reproducible.

pub mod config;
pub mod fixed;
pub mod interact;
pub mod laws;
pub mod particle;
pub mod spring;
pub mod vector;
pub mod world;
