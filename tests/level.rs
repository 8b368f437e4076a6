use heart_man::level::{
    count_coins, draw_level, get_tile_at, make_level, map_pos_to_tile_index, seed_to_tile, Tile,
    COIN_SPRITE, GRID_SIZE, N_ROWS, ROW, WALL_SPRITE,
};
use heart_man::ppu_buffer::PpuWrite;
use heart_man::rng::get_seeds;
use heart_man::vec2::Vec2;

#[test]
fn seed_to_tile_rules() {
    assert_eq!(seed_to_tile(0x0000), Tile::Wall); // 0 % 4 == 0
    assert_eq!(seed_to_tile(0x0100), Tile::Coin); // 1 % 41 == 1
    assert_eq!(seed_to_tile(0x2a00), Tile::Coin); // 42 % 41 == 1
    assert_eq!(seed_to_tile(0x7c00), Tile::Wall); // 124 % 4 == 0 though 124 % 41 == 1
    assert_eq!(seed_to_tile(0x0200), Tile::Nothing);
    assert_eq!(seed_to_tile(0x02ff), Tile::Nothing);
}

#[test]
fn level_perimeter_is_wall() {
    let seeds = vec![0x0200u16; (ROW as usize) * 4];
    let tiles = make_level(&seeds);
    assert_eq!(tiles.len(), 128);
    for i in 0..128 {
        let col = i % 32;
        let row = i / 32;
        let border = row == 0 || row == 3 || col == 0 || col == 31;
        assert_eq!(tiles[i], if border { Tile::Wall } else { Tile::Nothing });
    }
}

#[test]
fn level_is_deterministic_and_coins_recount() {
    let seeds = get_seeds(GRID_SIZE as usize);
    let a = make_level(&seeds);
    let b = make_level(&get_seeds(GRID_SIZE as usize));
    assert_eq!(a, b);
    assert_eq!(a.len(), (ROW as usize) * (N_ROWS as usize));
    assert_eq!(a[0], Tile::Wall);
    let direct = a.iter().filter(|t| **t == Tile::Coin).count();
    assert_eq!(count_coins(&a), direct);
    assert_eq!(count_coins(&a), 20);
    assert_eq!(a[46], Tile::Coin);
}

#[test]
fn single_row_level_is_all_wall() {
    let tiles = make_level(&vec![0x0200u16; 32]);
    assert!(tiles.iter().all(|t| *t == Tile::Wall));
}

#[test]
fn tile_index_mapping() {
    // row 0 of the grid is at y in 7..=14
    assert_eq!(map_pos_to_tile_index(&Vec2 { x: 0, y: 7 }), Some(0));
    assert_eq!(map_pos_to_tile_index(&Vec2 { x: 17, y: 15 }), Some(32 + 2));
    // above the grid there is no index
    assert_eq!(map_pos_to_tile_index(&Vec2 { x: 8, y: 0 }), None);
    assert_eq!(map_pos_to_tile_index(&Vec2 { x: 255, y: 6 }), None);
    // the bottom of the screen is row 31
    assert_eq!(map_pos_to_tile_index(&Vec2 { x: 0, y: 255 }), Some(992));
    assert_eq!(map_pos_to_tile_index(&Vec2 { x: 255, y: 255 }), Some(1023));
}

#[test]
fn lookup_on_a_tall_grid_reaches_the_bottom_row() {
    let mut tiles = vec![Tile::Nothing; 1000];
    tiles[992] = Tile::Coin;
    assert_eq!(get_tile_at(&tiles, &Vec2 { x: 0, y: 255 }), Tile::Coin);
    assert_eq!(get_tile_at(&tiles, &Vec2 { x: 64, y: 255 }), Tile::Wall);
    // above the grid is wall even on a grid with 65504 tiles or more
    let big = vec![Tile::Nothing; 65536];
    assert_eq!(get_tile_at(&big, &Vec2 { x: 0, y: 0 }), Tile::Wall);
}

#[test]
fn out_of_range_lookup_is_wall() {
    let tiles = vec![Tile::Nothing; 64];
    assert_eq!(get_tile_at(&tiles, &Vec2 { x: 8, y: 8 }), Tile::Nothing);
    assert_eq!(get_tile_at(&tiles, &Vec2 { x: 8, y: 0 }), Tile::Wall);
    assert_eq!(get_tile_at(&tiles, &Vec2 { x: 8, y: 200 }), Tile::Wall);
}

#[test]
fn count_coins_empty_and_mixed() {
    assert_eq!(count_coins(&[]), 0);
    assert_eq!(count_coins(&[Tile::Coin, Tile::Wall, Tile::Coin, Tile::Nothing]), 2);
}

#[test]
fn draw_level_writes_address_then_tile() {
    let w = draw_level(&[Tile::Wall, Tile::Nothing, Tile::Coin]);
    assert_eq!(
        w,
        vec![
            PpuWrite::AddrByte(0x20),
            PpuWrite::AddrByte(0x20),
            PpuWrite::Data(WALL_SPRITE),
            PpuWrite::AddrByte(0x20),
            PpuWrite::AddrByte(0x21),
            PpuWrite::Data(0),
            PpuWrite::AddrByte(0x20),
            PpuWrite::AddrByte(0x22),
            PpuWrite::Data(COIN_SPRITE),
        ]
    );
}
