use dungeon_map::{Rect, Room, TileMap, TileType};

fn floor_indices(map: &TileMap) -> Vec<usize> {
    map.tiles
        .iter()
        .enumerate()
        .filter(|(_, tile)| **tile == TileType::Floor)
        .map(|(idx, _)| idx)
        .collect()
}

#[test]
fn new_is_solid_rock_of_standard_size() {
    let map = TileMap::new(0);
    assert_eq!(map.width, 80);
    assert_eq!(map.height, 50);
    assert_eq!(map.depth, 0);
    assert_eq!(map.tiles.len(), 4000);
    assert_eq!(map.revealed_tiles.len(), 4000);
    assert_eq!(map.visible_tiles.len(), 4000);
    assert!(map.tiles.iter().all(|tile| *tile == TileType::Wall));
    assert!(map.revealed_tiles.iter().all(|seen| !*seen));
    assert!(map.visible_tiles.iter().all(|seen| !*seen));
    assert!(map.rooms.is_empty());
}

#[test]
fn new_keeps_the_depth() {
    assert_eq!(TileMap::new(7).depth, 7);
    assert_eq!(TileMap::new(-3).depth, -3);
    assert_eq!(TileMap::new_with_dimensions(4, 5, 12).depth, 12);
}

#[test]
fn new_with_dimensions_sizes_every_array() {
    let map = TileMap::new_with_dimensions(12, 7, 2);
    assert_eq!(map.width, 12);
    assert_eq!(map.height, 7);
    assert_eq!(map.tiles.len(), 84);
    assert_eq!(map.revealed_tiles.len(), 84);
    assert_eq!(map.visible_tiles.len(), 84);
    assert!(map.tiles.iter().all(|tile| *tile == TileType::Wall));
    assert!(map.revealed_tiles.iter().all(|seen| !*seen));
    assert!(map.visible_tiles.iter().all(|seen| !*seen));
    assert!(map.rooms.is_empty());
    assert!(map.is_well_formed());
}

#[test]
fn new_with_dimensions_of_one_tile() {
    let map = TileMap::new_with_dimensions(1, 1, 0);
    assert_eq!(map.tiles, vec![TileType::Wall]);
    assert!(map.is_well_formed());
    assert!(map.has_walled_border());
}

#[test]
fn xy_idx_is_row_major() {
    let map = TileMap::new(0);
    assert_eq!(map.xy_idx(0, 0), 0);
    assert_eq!(map.xy_idx(79, 0), 79);
    assert_eq!(map.xy_idx(0, 1), 80);
    assert_eq!(map.xy_idx(5, 2), 165);
    assert_eq!(map.xy_idx(79, 49), 3999);
    let small = TileMap::new_with_dimensions(10, 4, 1);
    assert_eq!(small.xy_idx(3, 2), 23);
    assert_eq!(small.xy_idx(9, 3), 39);
}

#[test]
fn xy_idx_round_trips_and_hits_every_index_once() {
    let map = TileMap::new_with_dimensions(13, 9, 0);
    let mut hit = vec![0u32; 13 * 9];
    for y in 0..9 {
        for x in 0..13 {
            let idx: usize = map.xy_idx(x, y);
            assert!(idx < 13 * 9);
            assert_eq!((idx % 13) as i32, x);
            assert_eq!((idx / 13) as i32, y);
            hit[idx] += 1;
        }
    }
    assert!(hit.iter().all(|count| *count == 1));
}

#[test]
fn dimensions_gives_width_and_height() {
    assert_eq!(TileMap::new(0).dimensions(), (80, 50));
    assert_eq!(TileMap::new_with_dimensions(3, 9, 0).dimensions(), (3, 9));
}

#[test]
fn is_opaque_is_true_for_walls_only() {
    let mut map = TileMap::new(0);
    map.tiles[200] = TileType::Floor;
    assert!(map.is_opaque(0));
    assert!(map.is_opaque(199));
    assert!(!map.is_opaque(200));
    assert!(map.is_opaque(201));
    assert!(map.is_opaque(3999));
}

#[test]
fn apply_room_to_map_floors_the_cells_of_the_room() {
    let mut map = TileMap::new(0);
    let room = Rect::new(1, 1, 3, 2);
    map.apply_room_to_map(&room);
    assert_eq!(floor_indices(&map), vec![162, 163, 164, 242, 243, 244]);
    assert!(map.rooms.is_empty());
    assert!(map.revealed_tiles.iter().all(|seen| !*seen));
    assert!(map.visible_tiles.iter().all(|seen| !*seen));
}

#[test]
fn apply_room_to_map_of_a_flat_room_changes_nothing() {
    let mut map = TileMap::new(0);
    map.apply_room_to_map(&Rect::new(5, 5, 0, 3));
    assert!(floor_indices(&map).is_empty());
}

#[test]
fn horizontal_tunnel_takes_its_ends_in_either_order() {
    let mut map = TileMap::new(0);
    map.apply_horizontal_tunnel(5, 2, 3);
    assert_eq!(floor_indices(&map), vec![242, 243, 244, 245]);
    let mut other = TileMap::new(0);
    other.apply_horizontal_tunnel(2, 5, 3);
    assert_eq!(other.tiles, map.tiles);
}

#[test]
fn horizontal_tunnel_of_one_cell() {
    let mut map = TileMap::new(0);
    map.apply_horizontal_tunnel(4, 4, 1);
    assert_eq!(floor_indices(&map), vec![84]);
}

#[test]
fn vertical_tunnel_takes_its_ends_in_either_order() {
    let mut map = TileMap::new(0);
    map.apply_vertical_tunnel(3, 1, 7);
    assert_eq!(floor_indices(&map), vec![87, 167, 247]);
    let mut other = TileMap::new(0);
    other.apply_vertical_tunnel(1, 3, 7);
    assert_eq!(other.tiles, map.tiles);
}

#[test]
fn tunnels_pass_over_indices_beyond_the_grid() {
    let mut map = TileMap::new_with_dimensions(10, 4, 0);
    map.apply_horizontal_tunnel(8, 12, 3);
    assert_eq!(floor_indices(&map), vec![38, 39]);

    let mut map = TileMap::new_with_dimensions(10, 4, 0);
    map.apply_vertical_tunnel(-1, 5, 2);
    assert_eq!(floor_indices(&map), vec![2, 12, 22, 32]);

    let mut map = TileMap::new_with_dimensions(10, 4, 0);
    map.apply_horizontal_tunnel(3, 6, 4);
    assert!(floor_indices(&map).is_empty());
    map.apply_vertical_tunnel(-9, -2, 0);
    assert!(floor_indices(&map).is_empty());
    assert!(map.is_well_formed());
}

#[test]
fn tunnels_dig_from_the_first_index_on() {
    let mut map = TileMap::new_with_dimensions(10, 4, 0);
    map.apply_horizontal_tunnel(-2, 1, 0);
    assert_eq!(floor_indices(&map), vec![0, 1]);

    let mut map = TileMap::new_with_dimensions(10, 4, 0);
    map.apply_vertical_tunnel(0, 1, 0);
    assert_eq!(floor_indices(&map), vec![0, 10]);
}

#[test]
fn tunnels_go_by_the_index_of_each_place() {
    let mut map = TileMap::new_with_dimensions(10, 4, 0);
    map.apply_horizontal_tunnel(9, 11, 0);
    assert_eq!(floor_indices(&map), vec![9, 10, 11]);
}

#[test]
fn tunnels_with_far_away_ends_still_stop() {
    let mut map = TileMap::new_with_dimensions(10, 4, 0);
    map.apply_horizontal_tunnel(-100_000, 100_000, 1);
    assert_eq!(floor_indices(&map).len(), 40);
    let mut map = TileMap::new_with_dimensions(10, 4, 0);
    map.apply_vertical_tunnel(i32::MAX - 3, i32::MAX, 5);
    assert!(floor_indices(&map).is_empty());
}

#[test]
fn corridor_with_the_horizontal_leg_first() {
    let mut map = TileMap::new(0);
    map.apply_corridor((2, 2), (5, 4), true);
    assert_eq!(floor_indices(&map), vec![162, 163, 164, 165, 245, 325]);
}

#[test]
fn corridor_with_the_vertical_leg_first() {
    let mut map = TileMap::new(0);
    map.apply_corridor((2, 2), (5, 4), false);
    assert_eq!(floor_indices(&map), vec![162, 242, 322, 323, 324, 325]);
}

#[test]
fn corridor_between_the_same_cell_is_one_tile() {
    let mut map = TileMap::new(0);
    map.apply_corridor((6, 6), (6, 6), true);
    assert_eq!(floor_indices(&map), vec![486]);
}

#[test]
fn add_room_places_the_first_room_without_a_corridor() {
    let mut map = TileMap::new(0);
    let room = Rect::new(1, 1, 3, 2);
    map.add_room(room, true);
    assert_eq!(floor_indices(&map), vec![162, 163, 164, 242, 243, 244]);
    assert_eq!(map.rooms, vec![room]);
}

#[test]
fn add_room_joins_the_new_room_to_the_last_one() {
    let first = Rect::new(1, 1, 3, 2);
    let second = Rect::new(10, 10, 4, 4);
    assert_eq!(first.center(), (2, 2));
    assert_eq!(second.center(), (12, 12));

    let mut expected = TileMap::new(3);
    expected.apply_room_to_map(&first);
    expected.apply_room_to_map(&second);
    expected.apply_horizontal_tunnel(2, 12, 2);
    expected.apply_vertical_tunnel(2, 12, 12);

    let mut map = TileMap::new(3);
    map.add_room(first, false);
    map.add_room(second, true);
    assert_eq!(map.tiles, expected.tiles);
    assert_eq!(map.rooms, vec![first, second]);
    assert_eq!(map.tiles[2 * 80 + 12], TileType::Floor);
    assert_eq!(map.tiles[12 * 80 + 2], TileType::Wall);

    let mut expected = TileMap::new(3);
    expected.apply_room_to_map(&first);
    expected.apply_room_to_map(&second);
    expected.apply_vertical_tunnel(2, 12, 2);
    expected.apply_horizontal_tunnel(2, 12, 12);

    let mut map = TileMap::new(3);
    map.add_room(first, false);
    map.add_room(second, false);
    assert_eq!(map.tiles, expected.tiles);
    assert_eq!(map.tiles[2 * 80 + 12], TileType::Wall);
    assert_eq!(map.tiles[12 * 80 + 2], TileType::Floor);
    assert!(map.has_walled_border());
    assert!(map.is_well_formed());
    assert_eq!(map.depth, 3);
}

#[test]
fn floor_stays_floor() {
    let mut map = TileMap::new(0);
    map.apply_horizontal_tunnel(1, 20, 5);
    let before = floor_indices(&map);
    map.apply_vertical_tunnel(1, 10, 7);
    map.apply_room_to_map(&Rect::new(3, 3, 6, 6));
    let after = floor_indices(&map);
    assert!(before.iter().all(|idx| after.contains(idx)));
}

#[test]
fn accepts_takes_any_room_on_an_empty_level() {
    let map = TileMap::new(0);
    assert!(map.accepts(&Rect::new(1, 1, 6, 6)));
    assert!(map.accepts(&Rect::new(60, 30, 10, 10)));
}

#[test]
fn accepts_takes_a_room_that_shares_a_cell_with_every_placed_room() {
    let mut map = TileMap::new(0);
    map.add_room(Rect::new(1, 1, 6, 6), false);
    assert!(map.accepts(&Rect::new(5, 5, 6, 6)));
    assert!(!map.accepts(&Rect::new(20, 20, 6, 6)));
    // the far corner cell alone is enough
    assert!(map.accepts(&Rect::new(6, 6, 6, 6)));
    assert!(!map.accepts(&Rect::new(7, 7, 6, 6)));

    map.add_room(Rect::new(5, 5, 6, 6), true);
    assert!(map.accepts(&Rect::new(4, 4, 6, 6)));
    // meets the first room but not the second
    assert!(!map.accepts(&Rect::new(0, 0, 5, 5)));
    // meets the second room but not the first
    assert!(!map.accepts(&Rect::new(8, 8, 6, 6)));
}
