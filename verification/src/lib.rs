//! A toroidal, four-state cellular automaton and its raster rendering.

pub mod engine;
pub mod grid;
pub mod palette;
pub mod render;
pub mod rule;
