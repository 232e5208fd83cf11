//! Collision, combat and wave logic of a top-down arena shooter.
//!
//! Every quantity is an integer. Distances are whole world units, durations
//! whole milliseconds. Speeds are in thousandths of a world unit, turns in
//! millionths of a radian. What is drawn, and how far things move in a tick,
//! is left to the caller.

pub mod components;
pub mod config;
pub mod ecs;
pub mod error;
pub mod event;
pub mod geometry;
pub mod objects;
pub mod states;
pub mod systems;
pub mod tilemap;
pub mod util;
