//! Exact ray casting against closed, outward-oriented triangle meshes.
//!
//! Coordinates live on an integer lattice, so every intersection test,
//! feature classification and nearest-hit comparison is decided exactly.
pub mod geometry;
pub mod mesh;
pub mod intersect;
