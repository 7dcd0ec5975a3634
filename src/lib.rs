//! A wave-crossing arena simulation: timed waves of monsters cross a grid field,
//! react to terrain and placed items, stop when they would run into each other,
//! and leave the field either at the far edge or after waiting too long.
//!
//! Distances are integers in milli-pixels, time is in milliseconds, and rates are
//! percentages or per-mille values, so every step of a tick is exact.

pub mod types;
pub mod definitions;
pub mod components;
pub mod monster;
pub mod obstacle;
pub mod gauges;
pub mod item;
pub mod spawn;
pub mod simulation;
pub mod laws;
