//! Digging: turning the tiles under a room or along a straight corridor
//! into floor.

use crate::rect::{Rect, Room};
use crate::tile_map::{TileMap, TileMapView, TileType};
use vstd::math::{max, min};
use vstd::prelude::*;

verus! {

impl TileMapView {
    /// The index that a cell has in this grid.
    pub open spec fn cell_index(self, cell: (i32, i32)) -> int {
        self.index_of(cell.0 as int, cell.1 as int)
    }

    /// Whether every one of `cells` lies inside the grid.
    pub open spec fn holds_cells(self, cells: Seq<(i32, i32)>) -> bool {
        forall|k: int|
            0 <= k < cells.len() ==> self.in_bounds(
                (#[trigger] cells[k]).0 as int,
                cells[k].1 as int,
            )
    }

    /// Whether one of the first `n` of `cells` has index `i`.
    pub open spec fn covers_first(self, cells: Seq<(i32, i32)>, n: int, i: int) -> bool {
        exists|k: int| 0 <= k < n && self.cell_index(#[trigger] cells[k]) == i
    }

    /// Whether one of `cells` has index `i`.
    pub open spec fn covers(self, cells: Seq<(i32, i32)>, i: int) -> bool {
        self.covers_first(cells, cells.len() as int, i)
    }

    /// Whether `i` is the index computed for one of the places `(x, y)`
    /// with `lo <= x <= hi`.
    pub open spec fn on_row_run(self, lo: int, hi: int, y: int, i: int) -> bool {
        exists|x: int| lo <= x <= hi && #[trigger] self.index_of(x, y) == i
    }

    /// Whether `i` is the index computed for one of the places `(x, y)`
    /// with `lo <= y <= hi`.
    pub open spec fn on_column_run(self, lo: int, hi: int, x: int, i: int) -> bool {
        exists|y: int| lo <= y <= hi && #[trigger] self.index_of(x, y) == i
    }

    /// Between two ends inside the grid a run along a row is the straight
    /// line of cells from one end to the other: the cell `(cx, cy)` is on
    /// it exactly if it lies in row `y` with its column from `lo` to
    /// `hi`.
    pub proof fn lemma_row_run_is_a_line(self, lo: int, hi: int, y: int, cx: int, cy: int)
        requires
            self.in_bounds(lo, y),
            self.in_bounds(hi, y),
            self.in_bounds(cx, cy),
        ensures
            self.on_row_run(lo, hi, y, self.index_of(cx, cy)) <==> cy == y && lo <= cx <= hi,
    {
        self.lemma_index_bijection();
        if self.on_row_run(lo, hi, y, self.index_of(cx, cy)) {
            // The place of the run with this index is `(cx, cy)` itself.
            let x = choose|x: int|
                lo <= x <= hi && #[trigger] self.index_of(x, y) == self.index_of(cx, cy);
            assert(self.in_bounds(x, y));
        }
    }

    /// Between two ends inside the grid a run along a column is the
    /// straight line of cells from one end to the other: the cell
    /// `(cx, cy)` is on it exactly if it lies in column `x` with its row
    /// from `lo` to `hi`.
    pub proof fn lemma_column_run_is_a_line(self, lo: int, hi: int, x: int, cx: int, cy: int)
        requires
            self.in_bounds(x, lo),
            self.in_bounds(x, hi),
            self.in_bounds(cx, cy),
        ensures
            self.on_column_run(lo, hi, x, self.index_of(cx, cy)) <==> cx == x && lo <= cy <= hi,
    {
        self.lemma_index_bijection();
        if self.on_column_run(lo, hi, x, self.index_of(cx, cy)) {
            // The place of the run with this index is `(cx, cy)` itself.
            let y = choose|y: int|
                lo <= y <= hi && #[trigger] self.index_of(x, y) == self.index_of(cx, cy);
            assert(self.in_bounds(x, y));
        }
    }

    /// The level with floor at every index that `hit` selects and every
    /// other tile as it was.
    pub open spec fn floored(self, hit: spec_fn(int) -> bool) -> TileMapView {
        self.with_tiles(
            Seq::new(
                self.tiles.len(),
                |i: int|
                    if hit(i) {
                        TileType::Floor
                    } else {
                        self.tiles[i]
                    },
            ),
        )
    }

    /// Digging is one-way: the grid keeps its size, and what was floor
    /// stays floor.
    pub proof fn lemma_floor_stays_floor(self, hit: spec_fn(int) -> bool)
        ensures
            self.floored(hit).tiles.len() == self.tiles.len(),
            forall|i: int|
                0 <= i < self.tiles.len() && self.tiles[i] == TileType::Floor
                    ==> #[trigger] self.floored(hit).tiles[i] == TileType::Floor,
    {
    }

    /// The level after the given cells were dug out.
    pub open spec fn carve_room(self, cells: Seq<(i32, i32)>) -> TileMapView {
        self.floored(|i: int| self.covers(cells, i))
    }

    /// The level after a corridor was dug along row `y` between the
    /// columns `x1` and `x2`, both ends dug too, in whichever order they
    /// come. A place whose index falls outside the grid is passed over.
    pub open spec fn carve_h(self, x1: int, x2: int, y: int) -> TileMapView {
        self.floored(|i: int| self.on_row_run(min(x1, x2), max(x1, x2), y, i))
    }

    /// The level after a corridor was dug along column `x` between the
    /// rows `y1` and `y2`, both ends dug too, in whichever order they
    /// come. A place whose index falls outside the grid is passed over.
    pub open spec fn carve_v(self, y1: int, y2: int, x: int) -> TileMapView {
        self.floored(|i: int| self.on_column_run(min(y1, y2), max(y1, y2), x, i))
    }

    /// The level after an L-shaped corridor was dug from `from` to `to`:
    /// with `horizontal_first` along the row of `from` and up or down the
    /// column of `to`, else along the column of `from` and across the row
    /// of `to`.
    pub open spec fn carve_corridor(
        self,
        from: (i32, i32),
        to: (i32, i32),
        horizontal_first: bool,
    ) -> TileMapView {
        if horizontal_first {
            self.carve_h(from.0 as int, to.0 as int, from.1 as int).carve_v(
                from.1 as int,
                to.1 as int,
                to.0 as int,
            )
        } else {
            self.carve_v(from.1 as int, to.1 as int, from.0 as int).carve_h(
                from.0 as int,
                to.0 as int,
                to.1 as int,
            )
        }
    }

    /// The level with one more room on its list.
    pub open spec fn push_room(self, room: Rect) -> TileMapView {
        TileMapView { rooms: self.rooms.push(room), ..self }
    }

    /// The level after `room` was placed: its cells dug out, a corridor
    /// dug from the center of the room placed last, if there is one, to
    /// the center of `room`, and `room` put on the list.
    pub open spec fn with_room(self, room: Rect, horizontal_first: bool) -> TileMapView {
        let dug = self.carve_room(room.cells());
        let joined = if self.rooms.len() > 0 {
            dug.carve_corridor(self.rooms.last().midpoint(), room.midpoint(), horizontal_first)
        } else {
            dug
        };
        joined.push_room(room)
    }
}

impl TileMap {
    /// Turns every cell that `room` occupies into floor.
    pub fn apply_room_to_map<R: Room>(&mut self, room: &R)
        requires
            old(self)@.well_formed(),
            old(self)@.holds_cells(room.cells()),
        ensures
            final(self)@ == old(self)@.carve_room(room.cells()),
            final(self)@.well_formed(),
    {
        let ghost before = self@;
        let spaces = room.spaces();
        let mut k: usize = 0;
        while k < spaces.len()
            invariant
                k <= spaces.len(),
                spaces@ == room.cells(),
                before.well_formed(),
                before.holds_cells(spaces@),
                self@ == before.with_tiles(self.tiles@),
                self.tiles.len() == before.tiles.len(),
                forall|i: int|
                    0 <= i < self.tiles.len() ==> #[trigger] self.tiles[i]
                        == if before.covers_first(spaces@, k as int, i) {
                        TileType::Floor
                    } else {
                        before.tiles[i]
                    },
            decreases spaces.len() - k,
        {
            let cell = spaces[k];
            let idx = self.xy_idx(cell.0, cell.1);
            self.tiles[idx] = TileType::Floor;
            k += 1;
        }
    }

    /// "Digs out" a horizontal corridor along row `y` between the columns
    /// `x1` and `x2`, whichever of them is the smaller. A place whose
    /// index falls outside the grid is passed over.
    pub fn apply_horizontal_tunnel(&mut self, x1: i32, x2: i32, y: i32)
        requires
            old(self)@.well_formed(),
        ensures
            final(self)@ == old(self)@.carve_h(x1 as int, x2 as int, y as int),
            final(self)@.well_formed(),
    {
        let ghost before = self@;
        let lo: i64 = if x1 <= x2 {
            x1 as i64
        } else {
            x2 as i64
        };
        let hi: i64 = if x1 <= x2 {
            x2 as i64
        } else {
            x1 as i64
        };
        let len: u64 = self.tiles.len() as u64;
        let mut x: i64 = lo;
        while x <= hi
            invariant
                lo == min(x1 as int, x2 as int),
                hi == max(x1 as int, x2 as int),
                lo <= x <= hi + 1,
                before.well_formed(),
                before.width == self.width,
                len == self.tiles.len(),
                self@ == before.with_tiles(self.tiles@),
                self.tiles.len() == before.tiles.len(),
                forall|i: int|
                    0 <= i < self.tiles.len() ==> #[trigger] self.tiles[i]
                        == if before.on_row_run(lo as int, x - 1, y as int, i) {
                        TileType::Floor
                    } else {
                        before.tiles[i]
                    },
            decreases hi + 1 - x,
        {
            assert(-0x4000_0000_0000_0000 <= y * self.width <= 0x4000_0000_0000_0000)
                by (nonlinear_arith)
                requires
                    -0x8000_0000 <= y <= 0x7fff_ffff,
                    0 < self.width <= 0x7fff_ffff,
            ;
            let idx: i64 = y as i64 * self.width as i64 + x;
            if idx >= 0 && (idx as u64) < len {
                self.tiles[idx as usize] = TileType::Floor;
            }
            assert(before.index_of(x as int, y as int) == idx);
            x += 1;
        }
    }

    /// "Digs out" a vertical corridor along column `x` between the rows
    /// `y1` and `y2`, whichever of them is the smaller. A place whose
    /// index falls outside the grid is passed over.
    pub fn apply_vertical_tunnel(&mut self, y1: i32, y2: i32, x: i32)
        requires
            old(self)@.well_formed(),
        ensures
            final(self)@ == old(self)@.carve_v(y1 as int, y2 as int, x as int),
            final(self)@.well_formed(),
    {
        let ghost before = self@;
        let lo: i64 = if y1 <= y2 {
            y1 as i64
        } else {
            y2 as i64
        };
        let hi: i64 = if y1 <= y2 {
            y2 as i64
        } else {
            y1 as i64
        };
        let len: u64 = self.tiles.len() as u64;
        let mut y: i64 = lo;
        while y <= hi
            invariant
                lo == min(y1 as int, y2 as int),
                hi == max(y1 as int, y2 as int),
                lo <= y <= hi + 1,
                before.well_formed(),
                before.width == self.width,
                len == self.tiles.len(),
                self@ == before.with_tiles(self.tiles@),
                self.tiles.len() == before.tiles.len(),
                forall|i: int|
                    0 <= i < self.tiles.len() ==> #[trigger] self.tiles[i]
                        == if before.on_column_run(lo as int, y - 1, x as int, i) {
                        TileType::Floor
                    } else {
                        before.tiles[i]
                    },
            decreases hi + 1 - y,
        {
            assert(-0x4000_0000_0000_0000 <= y * self.width <= 0x4000_0000_0000_0000)
                by (nonlinear_arith)
                requires
                    -0x8000_0000 <= y <= 0x7fff_ffff,
                    0 < self.width <= 0x7fff_ffff,
            ;
            let idx: i64 = y * self.width as i64 + x as i64;
            if idx >= 0 && (idx as u64) < len {
                self.tiles[idx as usize] = TileType::Floor;
            }
            assert(before.index_of(x as int, y as int) == idx);
            y += 1;
        }
    }

    /// Digs an L-shaped corridor from `from` to `to`, the horizontal leg
    /// first if `horizontal_first` says so, else the vertical one.
    pub fn apply_corridor(&mut self, from: (i32, i32), to: (i32, i32), horizontal_first: bool)
        requires
            old(self)@.well_formed(),
        ensures
            final(self)@ == old(self)@.carve_corridor(from, to, horizontal_first),
            final(self)@.well_formed(),
    {
        if horizontal_first {
            self.apply_horizontal_tunnel(from.0, to.0, from.1);
            self.apply_vertical_tunnel(from.1, to.1, to.0);
        } else {
            self.apply_vertical_tunnel(from.1, to.1, from.0);
            self.apply_horizontal_tunnel(from.0, to.0, to.1);
        }
    }

    /// Places `room`: digs it out, joins its center to the center of the
    /// room placed last, if there is one, and puts it on the list.
    pub fn add_room(&mut self, room: Rect, horizontal_first: bool)
        requires
            old(self)@.well_formed(),
            old(self)@.holds_cells(room.cells()),
        ensures
            final(self)@ == old(self)@.with_room(room, horizontal_first),
            final(self)@.well_formed(),
    {
        self.apply_room_to_map(&room);
        if !self.rooms.is_empty() {
            let to = room.center();
            let from = self.rooms[self.rooms.len() - 1].center();
            self.apply_corridor(from, to, horizontal_first);
        }
        self.rooms.push(room);
    }
}

} // verus!
