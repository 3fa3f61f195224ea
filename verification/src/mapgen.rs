//! Level builders behind one interface, so that a caller picks a way of
//! building a level without knowing how it is done.

pub mod simple_map;

use crate::tile_map::TileMap;
use vstd::prelude::*;

verus! {

/// A way of building the level for a given depth.
///
/// Whatever the builder does, the level it hands out keeps the dimension
/// invariant and the border invariant, and carries the depth it was asked
/// for.
pub trait MapBuilder {
    fn build(new_depth: i32) -> (map: TileMap)
        ensures
            map@.well_formed(),
            map@.border_walled(),
            map@.depth == new_depth,
    ;
}

} // verus!
