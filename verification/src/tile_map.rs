//! The tile grid: its data, its mathematical view, construction and the
//! mapping between grid coordinates and tile indices.

use crate::rect::Rect;
use vstd::arithmetic::div_mod::lemma_fundamental_div_mod_converse;
use vstd::prelude::*;

verus! {

/// Width of the grid that the level builders lay out.
pub const MAP_WIDTH: usize = 80;

/// Height of the grid that the level builders lay out.
pub const MAP_HEIGHT: usize = 50;

/// What fills one cell of the grid.
#[derive(PartialEq, Eq, Clone, Copy, Debug, Structural)]
pub enum TileType {
    Wall,
    Floor,
}

/// One dungeon level: a grid of tiles stored row by row, what the player
/// has seen of it, and the rooms that were placed, in placement order.
pub struct TileMap {
    pub tiles: Vec<TileType>,
    pub rooms: Vec<Rect>,
    pub width: i32,
    pub height: i32,
    pub revealed_tiles: Vec<bool>,
    pub visible_tiles: Vec<bool>,
    pub depth: i32,
}

/// The mathematical content of a [`TileMap`].
#[verifier::ext_equal]
pub struct TileMapView {
    pub tiles: Seq<TileType>,
    pub rooms: Seq<Rect>,
    pub width: int,
    pub height: int,
    pub revealed_tiles: Seq<bool>,
    pub visible_tiles: Seq<bool>,
    pub depth: int,
}

impl View for TileMap {
    type V = TileMapView;

    open spec fn view(&self) -> TileMapView {
        TileMapView {
            tiles: self.tiles@,
            rooms: self.rooms@,
            width: self.width as int,
            height: self.height as int,
            revealed_tiles: self.revealed_tiles@,
            visible_tiles: self.visible_tiles@,
            depth: self.depth as int,
        }
    }
}

impl TileMapView {
    /// The dimension invariant: both dimensions are positive and each of
    /// the three per-tile sequences holds `width * height` entries.
    pub open spec fn well_formed(self) -> bool {
        &&& self.width > 0
        &&& self.height > 0
        &&& self.tiles.len() == self.width * self.height
        &&& self.revealed_tiles.len() == self.width * self.height
        &&& self.visible_tiles.len() == self.width * self.height
    }

    /// Whether `(x, y)` names a cell of the grid.
    pub open spec fn in_bounds(self, x: int, y: int) -> bool {
        0 <= x < self.width && 0 <= y < self.height
    }

    /// The index of the cell `(x, y)` in row-major order.
    pub open spec fn index_of(self, x: int, y: int) -> int {
        y * self.width + x
    }

    /// The column of the cell with index `i`.
    pub open spec fn column_of(self, i: int) -> int {
        i % self.width
    }

    /// The row of the cell with index `i`.
    pub open spec fn row_of(self, i: int) -> int {
        i / self.width
    }

    /// A `width` by `height` grid of walls, nothing seen, no room placed.
    pub open spec fn blank(width: int, height: int, depth: int) -> TileMapView {
        TileMapView {
            tiles: Seq::new((width * height) as nat, |i: int| TileType::Wall),
            rooms: Seq::empty(),
            width,
            height,
            revealed_tiles: Seq::new((width * height) as nat, |i: int| false),
            visible_tiles: Seq::new((width * height) as nat, |i: int| false),
            depth,
        }
    }

    /// The same level with other tiles.
    pub open spec fn with_tiles(self, tiles: Seq<TileType>) -> TileMapView {
        TileMapView { tiles, ..self }
    }

    /// In-range coordinates and tile indices correspond one to one:
    /// `index_of` sends each cell to an index below `width * height`,
    /// remainder and quotient by `width` lead back to the cell, and every
    /// index below `width * height` is the index of the cell they name.
    pub proof fn lemma_index_bijection(self)
        requires
            self.width > 0,
            self.height > 0,
        ensures
            forall|x: int, y: int|
                self.in_bounds(x, y) ==> {
                    let i = #[trigger] self.index_of(x, y);
                    0 <= i < self.width * self.height && self.column_of(i) == x && self.row_of(i)
                        == y
                },
            forall|i: int|
                0 <= i < self.width * self.height ==> self.in_bounds(
                    #[trigger] self.column_of(i),
                    self.row_of(i),
                ) && self.index_of(self.column_of(i), self.row_of(i)) == i,
            forall|x1: int, y1: int, x2: int, y2: int|
                self.in_bounds(x1, y1) && self.in_bounds(x2, y2) && #[trigger] self.index_of(x1, y1)
                    == #[trigger] self.index_of(x2, y2) ==> x1 == x2 && y1 == y2,
    {
        let w = self.width;
        let h = self.height;
        assert forall|x: int, y: int| self.in_bounds(x, y) implies {
            let i = #[trigger] self.index_of(x, y);
            0 <= i < w * h && i % w == x && i / w == y
        } by {
            self.lemma_index_of(x, y);
        }
        assert forall|i: int| 0 <= i < w * h implies self.in_bounds(
            #[trigger] self.column_of(i),
            self.row_of(i),
        ) && self.index_of(self.column_of(i), self.row_of(i)) == i by {
            let q = i / w;
            let r = i % w;
            vstd::arithmetic::div_mod::lemma_fundamental_div_mod(i, w);
            vstd::arithmetic::div_mod::lemma_mod_pos_bound(i, w);
            assert(0 <= q < h) by (nonlinear_arith)
                requires
                    i == q * w + r,
                    0 <= r < w,
                    0 <= i < w * h,
            ;
        }
        assert forall|x1: int, y1: int, x2: int, y2: int|
            self.in_bounds(x1, y1) && self.in_bounds(x2, y2) && #[trigger] self.index_of(x1, y1)
                == #[trigger] self.index_of(x2, y2) implies x1 == x2 && y1 == y2 by {
            self.lemma_index_of(x1, y1);
            self.lemma_index_of(x2, y2);
        }
    }

    /// The index of an in-range cell, and the way back from it.
    pub proof fn lemma_index_of(self, x: int, y: int)
        requires
            self.in_bounds(x, y),
        ensures
            0 <= self.index_of(x, y) < self.width * self.height,
            self.column_of(self.index_of(x, y)) == x,
            self.row_of(self.index_of(x, y)) == y,
    {
        let w = self.width;
        let h = self.height;
        assert(0 <= y * w + x < w * h) by (nonlinear_arith)
            requires
                0 <= x < w,
                0 <= y < h,
        ;
        lemma_fundamental_div_mod_converse(y * w + x, w, y, x);
    }
}

impl TileMap {
    /// Builds the standard 80 by 50 level: every tile a wall, nothing
    /// seen, no room placed.
    pub fn new(new_depth: i32) -> (map: TileMap)
        ensures
            map@ == TileMapView::blank(80, 50, new_depth as int),
            map@.well_formed(),
            map@.border_walled(),
    {
        TileMap::new_with_dimensions(MAP_WIDTH, MAP_HEIGHT, new_depth)
    }

    /// Builds a level of `w` by `h` tiles: every tile a wall, nothing
    /// seen, no room placed.
    pub fn new_with_dimensions(w: usize, h: usize, new_depth: i32) -> (map: TileMap)
        requires
            0 < w <= i32::MAX,
            0 < h <= i32::MAX,
            w * h <= usize::MAX,
        ensures
            map@ == TileMapView::blank(w as int, h as int, new_depth as int),
            map@.well_formed(),
            map@.border_walled(),
    {
        proof {
            TileMapView::lemma_blank_is_walled(w as int, h as int, new_depth as int);
        }
        TileMap {
            tiles: vec![TileType::Wall; w * h],
            rooms: Vec::new(),
            width: w as i32,
            height: h as i32,
            revealed_tiles: vec![false; w * h],
            visible_tiles: vec![false; w * h],
            depth: new_depth,
        }
    }

    /// Checks the dimension invariant.
    pub fn is_well_formed(&self) -> (ok: bool)
        ensures
            ok == self@.well_formed(),
    {
        if self.width <= 0 || self.height <= 0 {
            return false;
        }
        assert(0 < self.width * self.height <= 0x4000_0000_0000_0000) by (nonlinear_arith)
            requires
                0 < self.width <= 0x7fff_ffff,
                0 < self.height <= 0x7fff_ffff,
        ;
        let cells: u64 = self.width as u64 * self.height as u64;
        self.tiles.len() as u64 == cells && self.revealed_tiles.len() as u64 == cells
            && self.visible_tiles.len() as u64 == cells
    }

    /// Converts the coordinates of a cell to its index in `tiles`.
    pub fn xy_idx(&self, x: i32, y: i32) -> (idx: usize)
        requires
            self@.well_formed(),
            self@.in_bounds(x as int, y as int),
        ensures
            idx == self@.index_of(x as int, y as int),
            idx < self.tiles.len(),
            self@.column_of(idx as int) == x,
            self@.row_of(idx as int) == y,
    {
        proof {
            self@.lemma_index_of(x as int, y as int);
            assert(self.tiles@.len() == self.tiles.len() <= usize::MAX);
            assert(0 <= y * self.width <= y * self.width + x) by (nonlinear_arith)
                requires
                    0 <= x,
                    0 <= y,
                    0 < self.width,
            ;
        }
        (y as usize * self.width as usize) + x as usize
    }

    /// The dimensions of the grid, width first.
    pub fn dimensions(&self) -> (d: (i32, i32))
        ensures
            d == (self.width, self.height),
    {
        (self.width, self.height)
    }

    /// Whether the tile at `idx` blocks sight: walls do, floors do not.
    pub fn is_opaque(&self, idx: usize) -> (opaque: bool)
        requires
            idx < self.tiles.len(),
        ensures
            opaque == (self.tiles[idx as int] == TileType::Wall),
    {
        self.tiles[idx] == TileType::Wall
    }
}

} // verus!
