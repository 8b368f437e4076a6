use heart_man::apu::APU;
use heart_man::io::{DOWN, LEFT, UP};
use heart_man::snake::{random_pos, simple_rng, Pos, SnakeGame};
use heart_man::sprites::SpriteState;

fn new_snake() -> SnakeGame {
    let mut g = None;
    SnakeGame::new(&mut g);
    g.unwrap()
}

#[test]
fn simple_rng_rotates_and_adds_one() {
    let mut s: u8 = 42;
    assert_eq!(simple_rng(&mut s), 85);
    assert_eq!(s, 85);
    let mut t: u8 = 0x80;
    assert_eq!(simple_rng(&mut t), 2);
    let mut u: u8 = 0xff;
    assert_eq!(simple_rng(&mut u), 0);
}

#[test]
fn food_from_the_generator() {
    let mut s: u8 = 42;
    assert_eq!(random_pos(&mut s), Pos { x: 85, y: -85 });
    assert_eq!(s, 171);
    let g = new_snake();
    assert_eq!(g.food_cell(), Pos { x: 85, y: -85 });
    assert_eq!(g.body(), &[Pos { x: 16, y: 16 }]);
    assert!(g.is_alive());
}

#[test]
fn snake_moves_and_turns() {
    let mut g = new_snake();
    let mut apu = APU::new();
    assert_eq!(g.step(0, &mut apu), Ok(()));
    assert_eq!(g.body(), &[Pos { x: 17, y: 16 }]);
    // left is straight against the heading: ignored
    g.step(LEFT, &mut apu).unwrap();
    assert_eq!(g.body(), &[Pos { x: 18, y: 16 }]);
    g.step(DOWN, &mut apu).unwrap();
    assert_eq!(g.body(), &[Pos { x: 18, y: 17 }]);
    assert!(g.is_alive());
    assert!(!apu.is_playing());
}

#[test]
fn snake_dies_off_the_top() {
    let mut g = new_snake();
    let mut apu = APU::new();
    for _ in 0..16 {
        g.step(UP, &mut apu).unwrap();
        assert!(g.is_alive());
    }
    assert_eq!(g.body(), &[Pos { x: 16, y: 0 }]);
    g.step(UP, &mut apu).unwrap();
    assert!(!g.is_alive());
    assert!(apu.is_playing());
    // a dead snake stays
    let before = g.body().to_vec();
    g.step(DOWN, &mut apu).unwrap();
    assert_eq!(g.body(), &before[..]);
}

#[test]
fn snake_is_drawn_with_its_food() {
    let g = new_snake();
    let mut sprites = SpriteState::new();
    assert_eq!(g.draw(&mut sprites), Ok(()));
    assert_eq!(&sprites.table()[0..8], &[16, 79, 0, 16, 171, 10, 1, 85]);
    let mut full = SpriteState::new();
    for _ in 0..64 {
        full.add(0, 0, 0, 0).unwrap();
    }
    assert_eq!(g.draw(&mut full), Err(()));
}
