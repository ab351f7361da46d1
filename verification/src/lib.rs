//! Procedural terrain generation on a fixed 20x20 grid.
//!
//! Tiles with placement quotas and weighted transition tables are placed by
//! randomly walking agents until the grid is full. The finished grid is a
//! plain sequence of colored tiles, ready for a renderer to rasterize.

pub mod color;
pub mod tile;
pub mod grid;
pub mod dice;
pub mod ant;
pub mod registry;
pub mod resolver;
pub mod render;
pub mod driver;
