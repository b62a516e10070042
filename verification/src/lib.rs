//! Core model of a multiplayer voxel world: chunked block storage with
//! per-block metadata and light levels, the client/server wire protocol
//! that keeps the two sides consistent, and the decision logic of the
//! client systems (meshing, inventory, game state), stated and verified
//! over plain values. Rendering, input and transport stay outside.

pub mod blocks;
pub mod gameplay;
pub mod meshing;
pub mod networking;
pub mod settings;
pub mod world;
pub mod coords;

pub use coords::{DD, DDD};
