//! Edge-matching tiles on a rectangular grid.
//!
//! A [`tile::Tile`] carries one on/off flag per edge. A [`tile_grid::TileGrid`]
//! lays tiles out row by row so that neighbouring tiles agree on the edge they
//! share, and can be doubled into mirror-symmetric grids.

pub mod decimal;
pub mod drawing;
pub mod tile;
pub mod tile_grid;
pub mod vector;
