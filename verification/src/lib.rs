pub mod tile;
pub mod rect;
pub mod grid;
pub mod object;
pub mod mapgen;
pub mod laws;
