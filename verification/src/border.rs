//! The outer ring of the grid, which every level keeps as wall, and the
//! checks that a level still is what it claims to be.

use crate::rect::{Rect, Room};
use crate::tile_map::{TileMap, TileMapView, TileType};
use vstd::math::{max, min};
use vstd::prelude::*;

verus! {

impl TileMapView {
    /// Whether `(x, y)` is a cell of the outer ring: on the first or last
    /// column, or on the first or last row.
    pub open spec fn on_border(self, x: int, y: int) -> bool {
        self.in_bounds(x, y) && (x == 0 || x == self.width - 1 || y == 0 || y == self.height - 1)
    }

    /// Whether `(x, y)` is a cell inside the outer ring.
    pub open spec fn in_interior(self, x: int, y: int) -> bool {
        0 < x < self.width - 1 && 0 < y < self.height - 1
    }

    /// Whether `i` is the index of a cell of the outer ring.
    pub open spec fn is_border_index(self, i: int) -> bool {
        0 <= i < self.width * self.height && self.on_border(self.column_of(i), self.row_of(i))
    }

    /// The border invariant: every cell of the outer ring is a wall.
    pub open spec fn border_walled(self) -> bool {
        forall|x: int, y: int|
            self.on_border(x, y) ==> self.tiles[#[trigger] self.index_of(x, y)] == TileType::Wall
    }

    /// Whether every one of `cells` lies inside the outer ring.
    pub open spec fn holds_inside(self, cells: Seq<(i32, i32)>) -> bool {
        forall|k: int|
            0 <= k < cells.len() ==> self.in_interior(
                (#[trigger] cells[k]).0 as int,
                cells[k].1 as int,
            )
    }

    /// Whether `room` keeps clear of the outer ring: the cells it occupies
    /// and its center all lie inside the ring.
    pub open spec fn shelters(self, room: Rect) -> bool {
        &&& 0 <= room.x1 <= room.x2 <= self.width - 2
        &&& 0 <= room.y1 <= room.y2 <= self.height - 2
        &&& 2 <= room.x1 + room.x2
        &&& 2 <= room.y1 + room.y2
    }

    /// A blank level keeps both invariants.
    pub proof fn lemma_blank_is_walled(width: int, height: int, depth: int)
        requires
            width > 0,
            height > 0,
        ensures
            TileMapView::blank(width, height, depth).well_formed(),
            TileMapView::blank(width, height, depth).border_walled(),
    {
        let blank = TileMapView::blank(width, height, depth);
        assert(width * height > 0) by (nonlinear_arith)
            requires
                width > 0,
                height > 0,
        ;
        assert forall|x: int, y: int| blank.on_border(x, y) implies
            blank.tiles[#[trigger] blank.index_of(x, y)] == TileType::Wall by {
            blank.lemma_index_of(x, y);
        }
    }

    /// A floor tile anywhere on the outer ring breaks the border
    /// invariant, whatever the rest of the level looks like.
    pub proof fn lemma_floor_on_border_breaks_invariant(self, i: int)
        requires
            self.well_formed(),
            self.is_border_index(i),
        ensures
            !self.with_tiles(self.tiles.update(i, TileType::Floor)).border_walled(),
    {
        let broken = self.with_tiles(self.tiles.update(i, TileType::Floor));
        self.lemma_index_bijection();
        let x = self.column_of(i);
        let y = self.row_of(i);
        assert(broken.on_border(x, y));
        assert(broken.tiles[broken.index_of(x, y)] == TileType::Floor);
    }

    /// Levels whose border is walled are told apart from the others by
    /// their border indices alone.
    pub proof fn lemma_border_walled_by_index(self)
        requires
            self.well_formed(),
        ensures
            self.border_walled() <==> (forall|i: int| #[trigger]
                self.is_border_index(i) ==> self.tiles[i] == TileType::Wall),
    {
        self.lemma_index_bijection();
        if self.border_walled() {
            assert forall|i: int| #[trigger] self.is_border_index(i) implies self.tiles[i]
                == TileType::Wall by {
                assert(self.index_of(self.column_of(i), self.row_of(i)) == i);
            }
        }
        if forall|i: int| #[trigger] self.is_border_index(i) ==> self.tiles[i] == TileType::Wall {
            assert forall|x: int, y: int| self.on_border(x, y) implies
                self.tiles[#[trigger] self.index_of(x, y)] == TileType::Wall by {
                assert(self.is_border_index(self.index_of(x, y)));
            }
        }
    }

    /// Digging out cells that lie inside the outer ring leaves the ring
    /// as it was.
    pub proof fn lemma_carve_room_keeps_border(self, cells: Seq<(i32, i32)>)
        requires
            self.well_formed(),
            self.border_walled(),
            self.holds_inside(cells),
        ensures
            self.carve_room(cells).border_walled(),
    {
        let after = self.carve_room(cells);
        self.lemma_index_bijection();
        assert forall|x: int, y: int| after.on_border(x, y) implies
            after.tiles[#[trigger] after.index_of(x, y)] == TileType::Wall by {
            if self.covers(cells, self.index_of(x, y)) {
                // The cell that was dug at this index is `(x, y)` itself,
                // and lies inside the ring.
                let k = choose|k: int|
                    0 <= k < cells.len() && self.cell_index(#[trigger] cells[k]) == self.index_of(
                        x,
                        y,
                    );
                assert(self.in_interior(cells[k].0 as int, cells[k].1 as int));
            }
        }
    }

    /// A corridor along a row inside the outer ring, between columns
    /// inside it, leaves the ring as it was.
    pub proof fn lemma_carve_h_keeps_border(self, x1: int, x2: int, y: int)
        requires
            self.well_formed(),
            self.border_walled(),
            self.in_interior(x1, y),
            self.in_interior(x2, y),
        ensures
            self.carve_h(x1, x2, y).border_walled(),
    {
        let after = self.carve_h(x1, x2, y);
        self.lemma_index_bijection();
        assert forall|bx: int, by: int| after.on_border(bx, by) implies
            after.tiles[#[trigger] after.index_of(bx, by)] == TileType::Wall by {
            if self.on_row_run(min(x1, x2), max(x1, x2), y, self.index_of(bx, by)) {
                // The place of the run with this index is `(bx, by)`
                // itself, and lies inside the ring.
                let x = choose|x: int|
                    min(x1, x2) <= x <= max(x1, x2) && #[trigger] self.index_of(x, y)
                        == self.index_of(bx, by);
                assert(self.in_interior(x, y));
            }
        }
    }

    /// A corridor along a column inside the outer ring, between rows
    /// inside it, leaves the ring as it was.
    pub proof fn lemma_carve_v_keeps_border(self, y1: int, y2: int, x: int)
        requires
            self.well_formed(),
            self.border_walled(),
            self.in_interior(x, y1),
            self.in_interior(x, y2),
        ensures
            self.carve_v(y1, y2, x).border_walled(),
    {
        let after = self.carve_v(y1, y2, x);
        self.lemma_index_bijection();
        assert forall|bx: int, by: int| after.on_border(bx, by) implies
            after.tiles[#[trigger] after.index_of(bx, by)] == TileType::Wall by {
            if self.on_column_run(min(y1, y2), max(y1, y2), x, self.index_of(bx, by)) {
                // The place of the run with this index is `(bx, by)`
                // itself, and lies inside the ring.
                let y = choose|y: int|
                    min(y1, y2) <= y <= max(y1, y2) && #[trigger] self.index_of(x, y)
                        == self.index_of(bx, by);
                assert(self.in_interior(x, y));
            }
        }
    }

    /// An L-shaped corridor between two cells inside the outer ring
    /// leaves the ring as it was, whichever leg is dug first.
    pub proof fn lemma_carve_corridor_keeps_border(
        self,
        from: (i32, i32),
        to: (i32, i32),
        horizontal_first: bool,
    )
        requires
            self.well_formed(),
            self.border_walled(),
            self.in_interior(from.0 as int, from.1 as int),
            self.in_interior(to.0 as int, to.1 as int),
        ensures
            self.carve_corridor(from, to, horizontal_first).border_walled(),
    {
        if horizontal_first {
            self.lemma_carve_h_keeps_border(from.0 as int, to.0 as int, from.1 as int);
            self.carve_h(from.0 as int, to.0 as int, from.1 as int).lemma_carve_v_keeps_border(
                from.1 as int,
                to.1 as int,
                to.0 as int,
            );
        } else {
            self.lemma_carve_v_keeps_border(from.1 as int, to.1 as int, from.0 as int);
            self.carve_v(from.1 as int, to.1 as int, from.0 as int).lemma_carve_h_keeps_border(
                from.0 as int,
                to.0 as int,
                to.1 as int,
            );
        }
    }

    /// The list of rooms has no part in the border invariant.
    pub proof fn lemma_push_room_keeps_border(self, room: Rect)
        requires
            self.border_walled(),
        ensures
            self.push_room(room).border_walled(),
    {
        let after = self.push_room(room);
        assert forall|x: int, y: int| after.on_border(x, y) implies
            after.tiles[#[trigger] after.index_of(x, y)] == TileType::Wall by {
            assert(self.index_of(x, y) == after.index_of(x, y));
        }
    }

    /// Placing a room that keeps clear of the outer ring keeps both
    /// invariants, provided the room placed last, if there is one, kept
    /// clear of the ring too.
    pub proof fn lemma_with_room_keeps_border(self, room: Rect, horizontal_first: bool)
        requires
            self.well_formed(),
            self.border_walled(),
            self.shelters(room),
            self.rooms.len() > 0 ==> self.shelters(self.rooms.last()),
        ensures
            self.holds_cells(room.cells()),
            self.with_room(room, horizontal_first).well_formed(),
            self.with_room(room, horizontal_first).border_walled(),
    {
        // The cells of the room and both centers lie inside the ring.
        room.lemma_cells_are_occupied();
        self.lemma_carve_room_keeps_border(room.cells());
        let dug = self.carve_room(room.cells());
        if self.rooms.len() > 0 {
            let from = self.rooms.last().midpoint();
            let to = room.midpoint();
            self.rooms.last().lemma_midpoint();
            room.lemma_midpoint();
            dug.lemma_carve_corridor_keeps_border(from, to, horizontal_first);
            dug.carve_corridor(from, to, horizontal_first).lemma_push_room_keeps_border(room);
        } else {
            dug.lemma_push_room_keeps_border(room);
        }
    }
}

impl TileMap {
    /// Checks the border invariant: whether every tile of the outer ring
    /// is a wall.
    pub fn has_walled_border(&self) -> (ok: bool)
        requires
            self@.well_formed(),
        ensures
            ok == self@.border_walled(),
    {
        let width = self.width as usize;
        let height = self.height as usize;
        let mut idx: usize = 0;
        proof {
            self@.lemma_border_walled_by_index();
        }
        while idx < self.tiles.len()
            invariant
                self@.well_formed(),
                width == self.width,
                height == self.height,
                idx <= self.tiles.len(),
                forall|i: int| 0 <= i < idx && #[trigger] self@.is_border_index(i) ==> self.tiles[i]
                    == TileType::Wall,
            decreases self.tiles.len() - idx,
        {
            let x = idx % width;
            let y = idx / width;
            if x == 0 || x == width - 1 || y == 0 || y == height - 1 {
                proof {
                    self@.lemma_index_bijection();
                    assert(self@.is_border_index(idx as int));
                }
                if self.tiles[idx] != TileType::Wall {
                    proof {
                        self@.lemma_border_walled_by_index();
                    }
                    return false;
                }
            }
            idx += 1;
        }
        proof {
            self@.lemma_border_walled_by_index();
        }
        true
    }
}

} // verus!
