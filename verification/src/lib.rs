//! A verified Pong simulation core.
//!
//! Game state lives in fixed-point pixel coordinates (units of
//! 1/1024 pixel), so paddle movement, ball motion, collision response
//! and scoring are all integer arithmetic with proved contracts.
//! Rendering and window plumbing live outside the library and consume
//! the plain geometric state the simulation exposes.

pub mod fixed;
pub mod game;
pub mod geometry;
pub mod sample;
pub mod window;
