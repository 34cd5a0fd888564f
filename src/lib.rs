//! Tile-grid visual challenges: cut an image into an N×N grid, hide one cell,
//! and judge the answer that a solver gives for the hidden cell.

pub mod challenge;
pub mod codec;
pub mod grid;
pub mod puzzle;
pub mod raster;
