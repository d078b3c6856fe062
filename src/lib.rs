//! Conway's Game of Life on a toroidal grid, with its rules and rendering
//! stated and proved.

pub mod cells;
pub mod laws;
pub mod model;
pub mod universe;
