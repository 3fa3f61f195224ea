//! What a renderer needs to know to draw a level: which cells to draw,
//! where, and with which glyph.

use crate::tile_map::{TileMap, TileMapView, TileType};
use vstd::prelude::*;

verus! {

/// Number of columns of the screen that levels are drawn on.
pub const SCREEN_COLUMNS: usize = 80;

/// The code that `rltk::to_cp437` gives for a character.
pub uninterp spec fn cp437_code(c: char) -> u16;

/// Calls `rltk::to_cp437`, a fixed table from characters to code page 437.
/// The claim is that the code depends on the character alone, and that
/// the table sends `#` to 35 and `.` to 46.
#[verifier::external_body]
pub(crate) fn to_cp437(c: char) -> (code: u16)
    ensures
        code == cp437_code(c),
        c == '#' ==> code == 35,
        c == '.' ==> code == 46,
{
    rltk::to_cp437(c)
}

/// One cell to draw.
#[derive(Clone, Copy, Debug, PartialEq, Eq, Structural)]
pub struct DrawCell {
    /// Column on the screen.
    pub x: i32,
    /// Row on the screen.
    pub y: i32,
    /// Code page 437 glyph.
    pub glyph: u16,
    /// The tile that the glyph stands for.
    pub tile: TileType,
    /// Whether the player sees the tile right now.
    pub visible: bool,
}

/// The glyph of a tile: `.` for floor, `#` for wall.
pub open spec fn glyph_of(tile: TileType) -> u16 {
    match tile {
        TileType::Floor => cp437_code('.'),
        TileType::Wall => cp437_code('#'),
    }
}

impl TileMapView {
    /// How the tile with index `i` is drawn: tiles fill the screen row by
    /// row, `SCREEN_COLUMNS` to a row.
    pub open spec fn draw_cell(self, i: int) -> DrawCell {
        DrawCell {
            x: (i % SCREEN_COLUMNS as int) as i32,
            y: (i / SCREEN_COLUMNS as int) as i32,
            glyph: glyph_of(self.tiles[i]),
            tile: self.tiles[i],
            visible: self.visible_tiles[i],
        }
    }

    /// The cells to draw among the first `n` tiles: those that the
    /// player has revealed, in index order.
    pub open spec fn draw_list(self, n: int) -> Seq<DrawCell>
        decreases n,
    {
        if n <= 0 {
            Seq::empty()
        } else if self.revealed_tiles[n - 1] {
            self.draw_list(n - 1).push(self.draw_cell(n - 1))
        } else {
            self.draw_list(n - 1)
        }
    }
}

/// Picks the glyph of a tile.
pub fn tile_glyph(tile: TileType) -> (glyph: u16)
    ensures
        glyph == glyph_of(tile),
        glyph == match tile {
            TileType::Floor => 46u16,
            TileType::Wall => 35u16,
        },
{
    match tile {
        TileType::Floor => to_cp437('.'),
        TileType::Wall => to_cp437('#'),
    }
}

impl TileMap {
    /// Lists the cells to draw: one for each revealed tile, in index
    /// order, with its place on the screen, its glyph, and whether it is
    /// in sight.
    pub fn draw_cells(&self) -> (cells: Vec<DrawCell>)
        requires
            self@.well_formed(),
            self.tiles.len() <= i32::MAX,
        ensures
            cells@ == self@.draw_list(self.tiles.len() as int),
    {
        let mut cells: Vec<DrawCell> = Vec::new();
        let mut y: i32 = 0;
        let mut x: i32 = 0;
        let mut idx: usize = 0;
        while idx < self.tiles.len()
            invariant
                self@.well_formed(),
                self.tiles.len() <= i32::MAX,
                idx <= self.tiles.len(),
                x == idx % SCREEN_COLUMNS,
                y == idx / SCREEN_COLUMNS,
                cells@ == self@.draw_list(idx as int),
            decreases self.tiles.len() - idx,
        {
            if self.revealed_tiles[idx] {
                let tile = self.tiles[idx];
                let glyph = tile_glyph(tile);
                let visible = self.visible_tiles[idx];
                cells.push(DrawCell { x, y, glyph, tile, visible });
            }
            x += 1;
            if x > 79 {
                x = 0;
                y += 1;
            }
            idx += 1;
        }
        cells
    }
}

} // verus!
