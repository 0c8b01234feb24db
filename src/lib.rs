//! Autotiling for binary terrain maps: a random grid of filled and empty cells,
//! the 3x3 neighborhood of each cell, an ordered table of wildcard patterns that
//! picks an atlas tile for it, and a one-shot, cached composite of the map.
pub mod grid;
pub mod map;
pub mod selector;
