//! Fixed-point core of a grid raycaster: the wall grid, the player's pose and
//! collision-aware movement, and the grid traversal that turns a camera ray
//! into a wall distance and a hit side.
//!
//! All world coordinates are integers counting `fixed::UNIT` steps per grid
//! cell, so every decision the library takes is exact.

pub mod fixed;
pub mod framebuffer;
pub mod game;
pub mod grid;
pub mod minimap;
pub mod player;
pub mod raycaster;
pub mod render;
pub mod text;
