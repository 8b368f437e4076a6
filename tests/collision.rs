use heart_man::collision::{check_box_collision, i8_to_sign};
use heart_man::level::{make_level, Tile};
use heart_man::vec2::{DPos, Sign, Vec2};

fn open_grid() -> Vec<Tile> {
    // four rows of 32: walls round the border, rows 1 and 2 open inside
    make_level(&vec![0x0200u16; 128])
}

fn pocket() -> Vec<Tile> {
    // walls everywhere but the tile at row 1, column 1
    let mut t = vec![Tile::Wall; 96];
    t[33] = Tile::Nothing;
    t
}

#[test]
fn sign_of_displacement() {
    assert_eq!(i8_to_sign(5), Some(Sign::Plus));
    assert_eq!(i8_to_sign(-1), Some(Sign::Minus));
    assert_eq!(i8_to_sign(0), None);
}

#[test]
fn zero_delta_is_never_blocked() {
    let t = pocket();
    for (x, y) in [(8u8, 15u8), (0, 0), (100, 100), (8, 0)] {
        let c = check_box_collision(&t, Tile::Wall, 6, &Vec2 { x, y }, &DPos::zero());
        assert_eq!(c, Vec2 { x: None, y: None });
    }
}

#[test]
fn enclosed_box_is_blocked_on_both_axes() {
    let t = pocket();
    let pos = Vec2 { x: 8, y: 15 };
    for (dx, dy) in [(1i8, 1i8), (1, -1), (-1, 1), (-1, -1), (3, -2)] {
        let c = check_box_collision(&t, Tile::Wall, 7, &pos, &DPos::new(dx, dy));
        assert_eq!(c.x, i8_to_sign(dx));
        assert_eq!(c.y, i8_to_sign(dy));
        assert!(c.x.is_some() && c.y.is_some());
    }
}

#[test]
fn sliding_along_a_vertical_wall() {
    let t = open_grid();
    // the box's left edge touches the wall column; move left and down
    let c = check_box_collision(&t, Tile::Wall, 6, &Vec2 { x: 8, y: 15 }, &DPos::new(-1, 1));
    assert_eq!(c, Vec2 { x: Some(Sign::Minus), y: None });
}

#[test]
fn free_box_is_not_blocked() {
    let t = open_grid();
    let c = check_box_collision(&t, Tile::Wall, 6, &Vec2 { x: 40, y: 16 }, &DPos::new(1, 1));
    assert_eq!(c, Vec2 { x: None, y: None });
}

#[test]
fn collision_with_another_tile_kind() {
    let mut t = open_grid();
    t[32 + 6] = Tile::Coin;
    let c = check_box_collision(&t, Tile::Coin, 6, &Vec2 { x: 41, y: 16 }, &DPos::new(1, 0));
    assert_eq!(c.x, Some(Sign::Plus));
    assert_eq!(c.y, None);
}
