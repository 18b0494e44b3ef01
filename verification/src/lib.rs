//! Swept axis-aligned bounding-box collision for a 2D platformer, on the
//! whole-unit grid.
//!
//! Positions, extents and movements are whole numbers; the instant of a
//! contact and the place it happens are exact fractions. Nothing is rounded
//! inside the geometry: only the per-tick step snaps a body back onto the
//! grid.
//!
//! - `math`: grid vectors and exact fractions.
//! - `collider`, `hit`: the box, and what a test against it reports.
//! - `intersect`: a box against a point, a box at rest and a segment.
//! - `slab`: what the segment test means for the points of the segment.
//! - `sweep`: a moving box against one box and against many.
//! - `body`, `step`: the moving body and its tick.
//! - `tilemap`: the level and the boxes of its tiles.
//! - `player`, `gravity`: what sets the velocity of a body.

pub mod body;
pub mod collider;
pub mod gravity;
pub mod hit;
pub mod intersect;
pub mod math;
pub mod player;
pub mod slab;
pub mod step;
pub mod sweep;
pub mod tilemap;
