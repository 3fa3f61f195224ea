use dungeon_map::render::tile_glyph;
use dungeon_map::{DrawCell, TileMap, TileType};

#[test]
fn glyphs_are_hash_for_wall_and_dot_for_floor() {
    assert_eq!(tile_glyph(TileType::Wall), 35);
    assert_eq!(tile_glyph(TileType::Floor), 46);
    assert_eq!(tile_glyph(TileType::Wall), u16::from(b'#'));
    assert_eq!(tile_glyph(TileType::Floor), u16::from(b'.'));
}

#[test]
fn nothing_is_drawn_before_anything_is_revealed() {
    assert!(TileMap::new(0).draw_cells().is_empty());
    assert!(TileMap::new_map_all_open(0).draw_cells().is_empty());
}

#[test]
fn revealed_tiles_are_drawn_in_index_order() {
    let mut map = TileMap::new_map_all_open(0);
    map.revealed_tiles[0] = true;
    map.revealed_tiles[81] = true;
    map.revealed_tiles[3999] = true;
    map.visible_tiles[81] = true;
    map.visible_tiles[500] = true;
    assert_eq!(
        map.draw_cells(),
        vec![
            DrawCell { x: 0, y: 0, glyph: 35, tile: TileType::Wall, visible: false },
            DrawCell { x: 1, y: 1, glyph: 46, tile: TileType::Floor, visible: true },
            DrawCell { x: 79, y: 49, glyph: 35, tile: TileType::Wall, visible: false },
        ]
    );
}

#[test]
fn a_fully_revealed_level_draws_every_tile() {
    let mut map = TileMap::new_map_all_open(0);
    for seen in map.revealed_tiles.iter_mut() {
        *seen = true;
    }
    let cells = map.draw_cells();
    assert_eq!(cells.len(), 4000);
    for (idx, cell) in cells.iter().enumerate() {
        assert_eq!(cell.x as usize, idx % 80);
        assert_eq!(cell.y as usize, idx / 80);
        assert_eq!(cell.tile, map.tiles[idx]);
        assert!(!cell.visible);
    }
}

#[test]
fn the_screen_is_eighty_columns_wide_whatever_the_level() {
    let mut map = TileMap::new_with_dimensions(100, 2, 0);
    map.revealed_tiles[79] = true;
    map.revealed_tiles[80] = true;
    map.revealed_tiles[199] = true;
    let cells = map.draw_cells();
    assert_eq!((cells[0].x, cells[0].y), (79, 0));
    assert_eq!((cells[1].x, cells[1].y), (0, 1));
    assert_eq!((cells[2].x, cells[2].y), (39, 2));
}
