//! Core of a small creature simulation: a population of independent entities
//! is spawned in bulk, each with its own forked random stream; every frame
//! each creature may lose health, its visual material follows its health
//! bucket, creatures that reach zero health are despawned through a deferred
//! queue, and a live count is reported after despawns are applied.
//!
//! Floating-point concerns (positions, movement displacement, colour values)
//! and all rendering, windowing and input live outside this crate; the core
//! hands out per-entity random draws and owns health, materials, despawning,
//! counting and the menu-to-playing lifecycle.

pub mod config;
pub mod lifecycle;
pub mod palette;
pub mod rng;
pub mod sim;
pub mod store;
pub mod text;
