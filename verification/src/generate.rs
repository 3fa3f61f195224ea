//! The level builders: one open hall, and random rooms joined by
//! corridors.

use crate::random::{new_rng, range, roll_dice};
use crate::rect::{share_no_cell, Rect, Room};
use crate::tile_map::{TileMap, TileMapView, TileType, MAP_HEIGHT, MAP_WIDTH};
use vstd::prelude::*;

verus! {

/// How many rooms the random builder tries to place.
pub const MAX_ROOMS: i32 = 30;

/// The least width and height of a random room.
pub const MIN_SIZE: i32 = 6;

/// The greatest width and height of a random room.
pub const MAX_SIZE: i32 = 10;

/// The one room of the open hall: it occupies every cell inside the outer
/// ring of the standard grid.
pub open spec fn hall() -> Rect {
    Rect { x1: 0, x2: 78, y1: 0, y2: 48 }
}

/// What the random builder may draw as a room: width and height from
/// `MIN_SIZE` to `MAX_SIZE`, and corners between `(0, 0)` and `(78, 48)`,
/// so that the cells it occupies keep off the outer ring of the standard
/// grid.
pub open spec fn is_candidate(room: Rect) -> bool {
    &&& MIN_SIZE <= room.x2 - room.x1 <= MAX_SIZE
    &&& MIN_SIZE <= room.y2 - room.y1 <= MAX_SIZE
    &&& 0 <= room.x1
    &&& room.x2 <= MAP_WIDTH - 2
    &&& 0 <= room.y1
    &&& room.y2 <= MAP_HEIGHT - 2
}

impl TileMapView {
    /// The placement rule: `room` is taken if no placed room is reported
    /// by `Room::intersect`, that is, if it has a cell in common with
    /// every room placed so far.
    pub open spec fn accepts(self, room: Rect) -> bool {
        forall|i: int|
            0 <= i < self.rooms.len() ==> !share_no_cell(
                room.cells(),
                (#[trigger] self.rooms[i]).cells(),
            )
    }

    /// Whether every placed room was taken by the placement rule against
    /// all rooms placed before it.
    pub open spec fn rooms_meet_pairwise(self) -> bool {
        forall|i: int, j: int|
            0 <= i < j < self.rooms.len() ==> !share_no_cell(
                (#[trigger] self.rooms[j]).cells(),
                (#[trigger] self.rooms[i]).cells(),
            )
    }

    /// The placement rule never takes a room that lies apart from a room
    /// placed before it. So on a level that it filled, no two rooms share
    /// a cell only if there are no two rooms.
    pub proof fn lemma_apart_rooms_are_alone(self)
        requires
            self.rooms_meet_pairwise(),
        ensures
            (forall|i: int, j: int|
                0 <= i < j < self.rooms.len() ==> share_no_cell(
                    (#[trigger] self.rooms[i]).cells(),
                    (#[trigger] self.rooms[j]).cells(),
                )) <==> self.rooms.len() <= 1,
    {
        if self.rooms.len() >= 2 {
            // The second room was taken against the first, so the two
            // share a cell.
            let first = self.rooms[0];
            let second = self.rooms[1];
            let (p, q) = choose|p: int, q: int|
                0 <= p < second.cells().len() && 0 <= q < first.cells().len()
                    && second.cells()[p] == first.cells()[q];
            assert(first.cells()[q] == second.cells()[p]);
        }
    }

    /// What holds of a level of random rooms and corridors whatever was
    /// drawn: it is a standard level of the given depth with nothing
    /// seen; it holds at least one room and `MAX_ROOMS` at most; each room
    /// is one that a candidate can be; each was taken by the placement
    /// rule against all rooms before it; and the level is the blank level
    /// with these rooms placed in order, under some sequence of coin
    /// flips.
    pub open spec fn is_rooms_and_corridors(self, depth: int) -> bool {
        &&& self.width == MAP_WIDTH
        &&& self.height == MAP_HEIGHT
        &&& self.depth == depth
        &&& self.revealed_tiles == TileMapView::blank(80, 50, depth).revealed_tiles
        &&& self.visible_tiles == TileMapView::blank(80, 50, depth).visible_tiles
        &&& 1 <= self.rooms.len() <= MAX_ROOMS
        &&& forall|i: int| 0 <= i < self.rooms.len() ==> is_candidate(#[trigger] self.rooms[i])
        &&& self.rooms_meet_pairwise()
        &&& exists|flips: Seq<bool>|
            flips.len() == self.rooms.len() && self == #[trigger] TileMapView::blank(
                80,
                50,
                depth,
            ).with_rooms(self.rooms, flips)
    }

    /// The level after `rooms` were placed one after the other, the
    /// corridor to room `k` dug horizontal leg first where `flips[k]`
    /// says so.
    pub open spec fn with_rooms(self, rooms: Seq<Rect>, flips: Seq<bool>) -> TileMapView
        decreases rooms.len(),
    {
        if rooms.len() == 0 {
            self
        } else {
            self.with_rooms(rooms.drop_last(), flips.drop_last()).with_room(
                rooms.last(),
                flips.last(),
            )
        }
    }
}

impl TileMap {
    /// Builds the open hall: a standard level whose whole inside is one
    /// room.
    pub fn new_map_all_open(new_depth: i32) -> (map: TileMap)
        ensures
            map@ == TileMapView::blank(80, 50, new_depth as int).carve_room(
                hall().cells(),
            ).push_room(hall()),
            map@.well_formed(),
            map@.border_walled(),
            forall|x: int, y: int|
                map@.in_bounds(x, y) ==> map@.tiles[#[trigger] map@.index_of(x, y)] == if 1 <= x
                    <= 78 && 1 <= y <= 48 {
                    TileType::Floor
                } else {
                    TileType::Wall
                },
    {
        let mut map = TileMap::new(new_depth);
        let new_room = Rect::new(0, 0, 78, 48);
        proof {
            map@.lemma_with_room_keeps_border(new_room, false);
        }
        let ghost blank = map@;
        map.apply_room_to_map(&new_room);
        map.rooms.push(new_room);
        proof {
            new_room.lemma_cells_are_occupied();
            blank.lemma_index_bijection();
            assert forall|x: int, y: int| map@.in_bounds(x, y) implies
                map@.tiles[#[trigger] map@.index_of(x, y)] == if 1 <= x <= 78 && 1 <= y <= 48 {
                TileType::Floor
            } else {
                TileType::Wall
            } by {
                let i = blank.index_of(x, y);
                if new_room.occupies(x, y) {
                    // The hall lists the cell, at its rank.
                    let k = new_room.rank_of(x, y);
                    assert(new_room.cells()[k] == (x as i32, y as i32));
                } else if blank.covers(new_room.cells(), i) {
                    // A listed cell with this index would be `(x, y)`.
                    let k = choose|k: int|
                        0 <= k < new_room.cells().len() && blank.cell_index(
                            #[trigger] new_room.cells()[k],
                        ) == i;
                    let c = new_room.cells()[k];
                    assert(new_room.occupies(c.0 as int, c.1 as int));
                }
            }
        }
        map
    }

    /// Decides whether `room` may be placed: it may if `Room::intersect`
    /// reports none of the rooms placed so far.
    pub fn accepts(&self, room: &Rect) -> (ok: bool)
        ensures
            ok == self@.accepts(*room),
    {
        let mut ok = true;
        let mut i: usize = 0;
        while i < self.rooms.len()
            invariant
                i <= self.rooms.len(),
                ok == (forall|k: int|
                    0 <= k < i ==> !share_no_cell(
                        room.cells(),
                        (#[trigger] self.rooms[k]).cells(),
                    )),
            decreases self.rooms.len() - i,
        {
            let others = self.rooms[i].spaces();
            if room.intersect(&others) {
                ok = false;
            }
            i += 1;
        }
        assert(self@.rooms == self.rooms@);
        ok
    }

    /// Builds a level of random rooms and the corridors that join them,
    /// with a random source of its own.
    ///
    /// Up to `MAX_ROOMS` candidate rooms are drawn, each with a width and
    /// a height from `MIN_SIZE` to `MAX_SIZE` and a place that keeps it
    /// off the outer ring. A candidate that the placement rule takes is
    /// dug out and joined to the room placed before it by an L-shaped
    /// corridor between the two centers; a coin decides which leg is dug
    /// first.
    ///
    /// Whatever is drawn, the level is the blank standard level with its
    /// rooms placed in order under some sequence of coin flips.
    pub fn new_map_rooms_and_corridors(new_depth: i32) -> (map: TileMap)
        ensures
            map@.well_formed(),
            map@.border_walled(),
            map@.is_rooms_and_corridors(new_depth as int),
    {
        let mut rng = new_rng();
        TileMap::new_map_rooms_and_corridors_with(new_depth, &mut rng)
    }

    /// Builds a level of random rooms and corridors from the draws of
    /// `rng`: for each candidate its width, its height, its column and its
    /// row, in this order, and a coin for each corridor.
    pub fn new_map_rooms_and_corridors_with(
        new_depth: i32,
        rng: &mut rltk::RandomNumberGenerator,
    ) -> (map: TileMap)
        ensures
            map@.well_formed(),
            map@.border_walled(),
            map@.is_rooms_and_corridors(new_depth as int),
    {
        let mut map = TileMap::new_with_dimensions(MAP_WIDTH, MAP_HEIGHT, new_depth);
        let ghost blank = map@;
        let ghost mut flips: Seq<bool> = Seq::empty();
        let mut tries: i32 = 0;
        while tries < MAX_ROOMS
            invariant
                0 <= tries <= MAX_ROOMS,
                blank == TileMapView::blank(80, 50, new_depth as int),
                map@.well_formed(),
                map.width == 80,
                map.height == 50,
                map@.depth == new_depth,
                map@.revealed_tiles == blank.revealed_tiles,
                map@.visible_tiles == blank.visible_tiles,
                map@.border_walled(),
                map@.rooms.len() <= tries,
                tries > 0 ==> map@.rooms.len() > 0,
                forall|i: int| 0 <= i < map@.rooms.len() ==> is_candidate(#[trigger] map@.rooms[i]),
                map@.rooms_meet_pairwise(),
                flips.len() == map@.rooms.len(),
                map@ == blank.with_rooms(map@.rooms, flips),
            decreases MAX_ROOMS - tries,
        {
            let w = range(rng, MIN_SIZE, MAX_SIZE + 1);
            let h = range(rng, MIN_SIZE, MAX_SIZE + 1);
            let x = roll_dice(rng, 1, map.width - w - 1) - 1;
            let y = roll_dice(rng, 1, map.height - h - 1) - 1;
            let new_room = Rect::new(x, y, w, h);
            if map.accepts(&new_room) {
                let horizontal_first = if map.rooms.is_empty() {
                    false
                } else {
                    range(rng, 0, 2) == 1
                };
                let ghost before = map@;
                proof {
                    before.lemma_with_room_keeps_border(new_room, horizontal_first);
                }
                map.add_room(new_room, horizontal_first);
                proof {
                    let grown = before.rooms.push(new_room);
                    let tossed = flips.push(horizontal_first);
                    assert(grown.drop_last() =~= before.rooms);
                    assert(tossed.drop_last() =~= flips);
                    assert(blank.with_rooms(grown, tossed) == blank.with_rooms(
                        before.rooms,
                        flips,
                    ).with_room(new_room, horizontal_first));
                    flips = tossed;
                }
            }
            tries += 1;
        }
        map
    }
}

} // verus!
