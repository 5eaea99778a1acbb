//! A grid-world raycasting engine on fixed-point coordinates: camera movement
//! with wall clearance, textured wall and billboard rendering against a
//! per-column depth buffer, enemy behaviour and projectile simulation.

pub mod audio;
pub mod engine;
pub mod fixed;
pub mod game;
pub mod grid;
