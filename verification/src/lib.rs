//! A first-person raycasting renderer core.
//!
//! Given a rectangular grid of wall cells, a player pose (position, facing
//! direction, camera plane) and a viewport, the library computes everything a
//! frame composer needs to draw a pseudo-3D view: one wall strip per screen
//! column (found by grid DDA traversal), perspective-correct floor and ceiling
//! samples per scanline, and billboarded sprite placements.
//!
//! All world-space geometry is carried in fixed-point integers with
//! [`fixed::FP`] sub-units per grid cell, so every computation is exact and
//! fully specified.

pub mod fixed;
pub mod frame;
pub mod grid;
pub mod player;
pub mod projection;
pub mod raycast;
pub mod sprite;

pub use fixed::FP;
