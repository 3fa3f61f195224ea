//! Rooms: regions of grid cells with a center, and the rectangle, the one
//! shape of room this crate ships.

use vstd::arithmetic::div_mod::lemma_fundamental_div_mod_converse;
use vstd::prelude::*;

verus! {

/// Whether two lists of cells have no cell in common.
pub open spec fn share_no_cell(a: Seq<(i32, i32)>, b: Seq<(i32, i32)>) -> bool {
    forall|i: int, j: int| 0 <= i < a.len() && 0 <= j < b.len() ==> a[i] != b[j]
}

/// Half of `s`, rounded toward zero.
pub open spec fn half_toward_zero(s: int) -> int {
    if s >= 0 {
        s / 2
    } else {
        -((-s) / 2)
    }
}

/// Something that occupies cells of a grid.
pub trait Room {
    /// The cells `(x, y)` that the room occupies, in the order in which
    /// `spaces` lists them.
    spec fn cells(&self) -> Seq<(i32, i32)>;

    /// The cell that `center` reports.
    spec fn midpoint(&self) -> (i32, i32);

    /// Tests this room against the cells of another occupant. The answer
    /// is `true` exactly when the two have no cell in common, and `false`
    /// as soon as they share one.
    fn intersect(&self, other_spaces: &Vec<(i32, i32)>) -> (apart: bool)
        ensures
            apart == share_no_cell(self.cells(), other_spaces@),
    {
        let own_spaces = self.spaces();
        let mut i: usize = 0;
        while i < own_spaces.len()
            invariant
                i <= own_spaces.len(),
                own_spaces@ == self.cells(),
                forall|p: int, q: int|
                    0 <= p < i && 0 <= q < other_spaces.len() ==> own_spaces[p] != other_spaces[q],
            decreases own_spaces.len() - i,
        {
            let mut j: usize = 0;
            while j < other_spaces.len()
                invariant
                    i < own_spaces.len(),
                    j <= other_spaces.len(),
                    own_spaces@ == self.cells(),
                    forall|q: int| 0 <= q < j ==> own_spaces[i as int] != other_spaces[q],
                decreases other_spaces.len() - j,
            {
                if own_spaces[i].0 == other_spaces[j].0 && own_spaces[i].1 == other_spaces[j].1 {
                    return false;
                }
                j += 1;
            }
            i += 1;
        }
        true
    }

    /// Returns the coordinate pair `(x, y)` of the center of the room.
    fn center(&self) -> (c: (i32, i32))
        ensures
            c == self.midpoint(),
    ;

    /// Returns the coordinate pairs `(x, y)` of the cells that the room
    /// occupies.
    fn spaces(&self) -> (v: Vec<(i32, i32)>)
        ensures
            v@ == self.cells(),
    ;
}

/// An axis-aligned rectangle between the corners `(x1, y1)` and `(x2, y2)`.
///
/// As a room it occupies the cells `(x, y)` with `x1 < x <= x2` and
/// `y1 < y <= y2`: the near edges stay out, the far edges are in.
#[derive(Clone, Copy, Debug, PartialEq, Eq, Structural)]
pub struct Rect {
    pub x1: i32,
    pub x2: i32,
    pub y1: i32,
    pub y2: i32,
}

impl Rect {
    /// Number of columns that the rectangle occupies.
    pub open spec fn span_x(&self) -> int {
        if self.x1 < self.x2 {
            self.x2 - self.x1
        } else {
            0
        }
    }

    /// Number of rows that the rectangle occupies.
    pub open spec fn span_y(&self) -> int {
        if self.y1 < self.y2 {
            self.y2 - self.y1
        } else {
            0
        }
    }

    /// Whether the rectangle occupies the cell `(x, y)`.
    pub open spec fn occupies(&self, x: int, y: int) -> bool {
        self.x1 < x <= self.x2 && self.y1 < y <= self.y2
    }

    /// The `k`-th occupied cell, rows first and left to right in each row.
    pub open spec fn cell_at(&self, k: int) -> (i32, i32) {
        ((self.x1 + 1 + k % self.span_x()) as i32, (self.y1 + 1 + k / self.span_x()) as i32)
    }

    /// Position of the occupied cell `(x, y)` in the row-major listing.
    pub open spec fn rank_of(&self, x: int, y: int) -> int {
        (y - self.y1 - 1) * self.span_x() + (x - self.x1 - 1)
    }

    /// Whether the two rectangles occupy a cell in common.
    pub open spec fn overlaps(&self, other: Rect) -> bool {
        &&& self.x1 < other.x2
        &&& other.x1 < self.x2
        &&& self.y1 < other.y2
        &&& other.y1 < self.y2
        &&& self.x1 < self.x2
        &&& other.x1 < other.x2
        &&& self.y1 < self.y2
        &&& other.y1 < other.y2
    }

    /// Builds the rectangle with near corner `(x, y)`, `w` columns wide
    /// and `h` rows high. A rectangle of no width or no height occupies
    /// nothing.
    pub fn new(x: i32, y: i32, w: i32, h: i32) -> (r: Rect)
        requires
            i32::MIN <= x + w <= i32::MAX,
            i32::MIN <= y + h <= i32::MAX,
        ensures
            r.x1 == x,
            r.y1 == y,
            r.x2 == x + w,
            r.y2 == y + h,
    {
        Rect { x1: x, y1: y, x2: x + w, y2: y + h }
    }

    /// The listing of `cells` holds exactly the occupied cells, each once,
    /// at the position that `rank_of` gives.
    pub proof fn lemma_cells_are_occupied(&self)
        ensures
            self.cells().len() == self.span_x() * self.span_y(),
            forall|k: int|
                0 <= k < self.cells().len() ==> {
                    let c = #[trigger] self.cells()[k];
                    self.occupies(c.0 as int, c.1 as int) && self.rank_of(c.0 as int, c.1 as int)
                        == k
                },
            forall|x: int, y: int|
                self.occupies(x, y) ==> {
                    let k = #[trigger] self.rank_of(x, y);
                    0 <= k < self.cells().len() && self.cells()[k] == (x as i32, y as i32)
                },
    {
        let w = self.span_x();
        let h = self.span_y();
        assert(0 <= w * h) by (nonlinear_arith)
            requires
                0 <= w,
                0 <= h,
        ;
        assert forall|k: int| 0 <= k < self.cells().len() implies {
            let c = #[trigger] self.cells()[k];
            self.occupies(c.0 as int, c.1 as int) && self.rank_of(c.0 as int, c.1 as int) == k
        } by {
            self.lemma_cell_at(k);
        }
        assert forall|x: int, y: int| self.occupies(x, y) implies {
            let k = #[trigger] self.rank_of(x, y);
            0 <= k < self.cells().len() && self.cells()[k] == (x as i32, y as i32)
        } by {
            let row = y - self.y1 - 1;
            let col = x - self.x1 - 1;
            let k = self.rank_of(x, y);
            assert(0 <= row * w + col < w * h) by (nonlinear_arith)
                requires
                    0 <= row < h,
                    0 <= col < w,
            ;
            lemma_fundamental_div_mod_converse(k, w, row, col);
        }
    }

    /// Two rectangles have no cell in common exactly if their corners
    /// keep them apart.
    pub proof fn lemma_apart_by_corners(&self, other: Rect)
        ensures
            share_no_cell(self.cells(), other.cells()) <==> !self.overlaps(other),
    {
        self.lemma_cells_are_occupied();
        other.lemma_cells_are_occupied();
        if self.overlaps(other) {
            let x = if self.x2 <= other.x2 {
                self.x2 as int
            } else {
                other.x2 as int
            };
            let y = if self.y2 <= other.y2 {
                self.y2 as int
            } else {
                other.y2 as int
            };
            // The far corner of the common part is a cell of both.
            let p = self.rank_of(x, y);
            let q = other.rank_of(x, y);
            assert(self.cells()[p] == other.cells()[q]);
        } else {
            assert forall|i: int, j: int|
                0 <= i < self.cells().len() && 0 <= j < other.cells().len() implies self.cells()[i]
                != other.cells()[j] by {
                // Each rectangle occupies its own cell; were the two one
                // cell, the corners would overlap.
                let c = self.cells()[i];
                let d = other.cells()[j];
                assert(self.occupies(c.0 as int, c.1 as int));
                assert(other.occupies(d.0 as int, d.1 as int));
            }
        }
    }

    /// The center is the midpoint of the corners, rounded toward zero,
    /// and lies between them.
    pub proof fn lemma_midpoint(&self)
        ensures
            self.midpoint().0 == half_toward_zero(self.x1 + self.x2),
            self.midpoint().1 == half_toward_zero(self.y1 + self.y2),
            self.x1 <= self.x2 ==> self.x1 <= self.midpoint().0 <= self.x2,
            self.y1 <= self.y2 ==> self.y1 <= self.midpoint().1 <= self.y2,
    {
    }

    /// Where the `k`-th cell of the listing lies.
    proof fn lemma_cell_at(&self, k: int)
        requires
            0 <= k < self.span_x() * self.span_y(),
        ensures
            0 <= k % self.span_x() < self.span_x(),
            0 <= k / self.span_x() < self.span_y(),
            self.cell_at(k).0 == self.x1 + 1 + k % self.span_x(),
            self.cell_at(k).1 == self.y1 + 1 + k / self.span_x(),
            self.rank_of(self.cell_at(k).0 as int, self.cell_at(k).1 as int) == k,
    {
        let w = self.span_x();
        let h = self.span_y();
        assert(w > 0 && h > 0) by (nonlinear_arith)
            requires
                0 <= w,
                0 <= h,
                0 < w * h,
        ;
        let q = k / w;
        let r = k % w;
        assert(k == q * w + r && 0 <= r < w) by {
            vstd::arithmetic::div_mod::lemma_fundamental_div_mod(k, w);
            vstd::arithmetic::div_mod::lemma_mod_pos_bound(k, w);
        }
        assert(0 <= q < h) by (nonlinear_arith)
            requires
                k == q * w + r,
                0 <= r < w,
                0 <= k < w * h,
                w > 0,
        ;
    }
}

impl Room for Rect {
    open spec fn cells(&self) -> Seq<(i32, i32)> {
        Seq::new((self.span_x() * self.span_y()) as nat, |k: int| self.cell_at(k))
    }

    open spec fn midpoint(&self) -> (i32, i32) {
        (
            half_toward_zero(self.x1 + self.x2) as i32,
            half_toward_zero(self.y1 + self.y2) as i32,
        )
    }

    /// The midpoint of the two corners, each coordinate rounded toward
    /// zero.
    fn center(&self) -> (c: (i32, i32)) {
        let sx: i64 = self.x1 as i64 + self.x2 as i64;
        let sy: i64 = self.y1 as i64 + self.y2 as i64;
        ((sx / 2) as i32, (sy / 2) as i32)
    }

    /// Lists the occupied cells row by row, each row from left to right.
    fn spaces(&self) -> (v: Vec<(i32, i32)>) {
        let ghost w = self.span_x();
        let ghost h = self.span_y();
        let mut v: Vec<(i32, i32)> = Vec::new();
        let mut y: i32 = self.y1;
        while y < self.y2
            invariant
                w == self.span_x(),
                h == self.span_y(),
                self.y1 <= y,
                y <= self.y2 || y == self.y1,
                v.len() == (y - self.y1) * w,
                forall|k: int| 0 <= k < v.len() ==> v[k] == self.cell_at(k),
            decreases self.y2 - y,
        {
            let ghost row = y - self.y1;
            y = y + 1;
            let mut x: i32 = self.x1;
            while x < self.x2
                invariant
                    w == self.span_x(),
                    h == self.span_y(),
                    row == y - self.y1 - 1,
                    0 <= row < h,
                    self.x1 <= x,
                    x <= self.x2 || x == self.x1,
                    v.len() == row * w + (x - self.x1),
                    forall|k: int| 0 <= k < v.len() ==> v[k] == self.cell_at(k),
                decreases self.x2 - x,
            {
                let ghost col = x - self.x1;
                x = x + 1;
                proof {
                    lemma_fundamental_div_mod_converse(row * w + col, w, row, col);
                }
                v.push((x, y));
            }
            assert((row + 1) * w == row * w + w) by (nonlinear_arith);
        }
        assert(v.len() == w * h) by {
            if self.y1 < self.y2 {
                assert(y == self.y2);
                assert((y - self.y1) * w == w * h) by (nonlinear_arith)
                    requires
                        y - self.y1 == h,
                ;
            } else {
                assert(w * h == 0) by (nonlinear_arith)
                    requires
                        h == 0,
                ;
            }
        }
        v
    }
}

} // verus!
