//! The plainest builder: solid rock.

use crate::mapgen::MapBuilder;
use crate::tile_map::{TileMap, TileMapView};
use vstd::prelude::*;

verus! {

/// Builds the standard level with every tile a wall.
pub struct SimpleMapBuilder {}

impl MapBuilder for SimpleMapBuilder {
    fn build(new_depth: i32) -> (map: TileMap)
        ensures
            map@ == TileMapView::blank(80, 50, new_depth as int),
    {
        TileMap::new(new_depth)
    }
}

} // verus!
