//! Deterministic simulation core for a small 2D platformer: a fixed-point
//! physics world with collision-group filtered queries, a closed-registry
//! entity world, a player state machine with morphing, triggers, checkpoints,
//! camera tracking, and frame interpolation.

pub mod camera;
pub mod checkpoint;
pub mod colliders;
pub mod dead;
pub mod entities;
pub mod input;
pub mod interpolation;
pub mod level;
pub mod math;
pub mod physics;
pub mod player;
pub mod sim;
pub mod text;
pub mod tiles;
pub mod trigger;
pub mod tween;
pub mod world;
pub mod zones;
