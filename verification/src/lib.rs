//! Procedural dungeon maps: a grid of wall and floor tiles, carved out of
//! rectangular rooms and the L-shaped corridors that join them.
//!
//! A [`TileMap`] is one level. It comes from one of three builders:
//! [`TileMap::new`] (solid rock), [`TileMap::new_map_all_open`] (one hall)
//! and [`TileMap::new_map_rooms_and_corridors`] (random rooms). Every
//! builder keeps two invariants, stated over the level's mathematical
//! view, [`TileMapView`]: the three per-tile arrays hold `width * height`
//! entries each, and the outer ring of the grid is wall.
//!
//! The modules:
//! - [`rect`]: the [`Room`] capability and the rectangle that has it;
//! - [`tile_map`]: the level, its view, construction, indexing, opacity;
//! - [`carve`]: digging rooms and corridors into a level;
//! - [`border`]: the border invariant, its check, and what keeps it;
//! - [`generate`]: the hall and the random rooms and corridors;
//! - [`mapgen`]: builders behind one interface;
//! - [`render`]: the list of cells that a renderer draws;
//! - [`random`]: the calls into `rltk`'s random number generator, which
//!   are believed, not proved.

pub mod border;
pub mod carve;
pub mod generate;
pub mod mapgen;
pub mod random;
pub mod rect;
pub mod render;
pub mod tile_map;

pub use mapgen::simple_map::SimpleMapBuilder;
pub use mapgen::MapBuilder;
pub use rect::{Rect, Room};
pub use render::DrawCell;
pub use tile_map::{TileMap, TileMapView, TileType};
