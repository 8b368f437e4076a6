use heart_man::apu::APU;
use heart_man::game::{
    draw_digits, frame, make_meanie, on_player_death, random_cardinal_dir, random_pos, FrameError, Game, HEART_SPRITE,
    ORIGIN,
};
use heart_man::ppu_buffer::BufferError;
use heart_man::addr::Addr;
use heart_man::agent::{Meanie, Player};
use heart_man::level::{count_coins, make_level, Tile, GRID_SIZE};
use heart_man::ppu_buffer::{Buffer, PpuWrite};
use heart_man::rng::{get_seeds, Rng, INIT_SEED};
use heart_man::sprites::SpriteState;
use heart_man::vec2::{DPos, Orientation, Vec2};

fn meanie(x: u8, y: u8, vx: i8, vy: i8, o: Orientation, n: u8) -> Meanie {
    Meanie { pos: Vec2 { x, y }, vel: DPos::new(vx, vy), orientation: o, n_turns: n }
}

fn new_game() -> Game {
    let mut g = None;
    Game::new(&mut g);
    g.unwrap()
}

#[test]
fn new_game_from_the_fixed_seed() {
    let g = new_game();
    assert_eq!(g.tile_grid()[0], Tile::Wall);
    assert_eq!(g.tile_grid().len(), GRID_SIZE as usize);
    assert_eq!(g.tile_grid(), &make_level(&get_seeds(GRID_SIZE as usize))[..]);
    assert_eq!(g.coins_left(), 20);
    assert_eq!(g.coins_left() as usize, count_coins(g.tile_grid()));
    assert_eq!(g.player_state(), Player { pos: Vec2 { x: 16, y: 0 }, dead: false });
    assert_eq!(g.grabbed_index(), None);
    assert_eq!(
        g.agents(),
        &[
            meanie(64, 32, 1, 0, Orientation::Clockwise, 0),
            meanie(129, 64, 1, 0, Orientation::Clockwise, 0),
            meanie(104, 52, -1, 0, Orientation::Widdershins, 0),
            meanie(163, 81, 1, 0, Orientation::Clockwise, 0),
        ]
    );
}

#[test]
fn one_frame_moves_the_agents_and_draws() {
    let mut g = new_game();
    let mut apu = APU::new();
    let mut sprites = SpriteState::new();
    let mut buffer: Buffer<20> = Buffer::new();
    buffer.tile(Addr(0x2000), 1).unwrap();
    assert_eq!(frame(&mut g, 0, &mut apu, &mut sprites, &mut buffer), Ok(()));
    assert_eq!(
        g.agents(),
        &[
            meanie(65, 32, 1, 0, Orientation::Clockwise, 0),
            meanie(130, 64, 1, 0, Orientation::Clockwise, 0),
            meanie(104, 53, 0, 1, Orientation::Widdershins, 1),
            meanie(163, 80, 0, -1, Orientation::Clockwise, 3),
        ]
    );
    assert_eq!(g.player_state().pos, Vec2 { x: 16, y: 0 });
    assert!(!apu.is_playing());
    // the queue holds only this frame's score: "020"
    assert_eq!(
        buffer.render(),
        vec![
            PpuWrite::AddrByte(0x20),
            PpuWrite::AddrByte(0x20),
            PpuWrite::Data(16),
            PpuWrite::Data(18),
            PpuWrite::Data(16),
        ]
    );
    let t = sprites.table();
    assert_eq!(&t[0..4], &[0, HEART_SPRITE, 0, 16]);
    assert_eq!(&t[4..8], &[32, 0x5f, 0, 65]);
    assert_eq!(&t[16..20], &[80, 0x5f, 0, 163]);
}

#[test]
fn score_digits() {
    let mut b: Buffer<20> = Buffer::new();
    assert_eq!(draw_digits(Addr(ORIGIN), 1234, &mut b), Ok(()));
    assert_eq!(
        b.render(),
        vec![
            PpuWrite::AddrByte(0x20),
            PpuWrite::AddrByte(0x20),
            PpuWrite::Data(18),
            PpuWrite::Data(19),
            PpuWrite::Data(20),
        ]
    );
}

#[test]
fn random_helpers_follow_the_generator() {
    let mut r = Rng::new(None);
    let p = random_pos(&mut r);
    // bytes 34 and 17 from the default seed
    assert_eq!(p, Vec2 { x: 34, y: 17 });
    let d = random_cardinal_dir(&mut r);
    // byte 8: 8 % 4 == 0, so right
    assert_eq!(d, DPos::new(1, 0));
    let mut r2 = Rng::new(Some(INIT_SEED));
    let level = make_level(&get_seeds(GRID_SIZE as usize));
    let m = make_meanie(&mut r2, &level).unwrap();
    assert_eq!(m, meanie(64, 32, 1, 0, Orientation::Clockwise, 0));
}

#[test]
fn full_queue_is_reported() {
    let mut b: Buffer<5> = Buffer::new();
    assert_eq!(draw_digits(Addr(ORIGIN), 7, &mut b), Err(BufferError::Full));
    assert!(b.render().is_empty());
    let mut g = new_game();
    let mut apu = APU::new();
    let mut sprites = SpriteState::new();
    assert_eq!(frame(&mut g, 0, &mut apu, &mut sprites, &mut b), Err(FrameError::QueueFull));
    // the sprites are still staged
    assert_eq!(&sprites.table()[0..4], &[0, HEART_SPRITE, 0, 16]);
}

#[test]
fn full_sprite_table_is_reported() {
    let mut g = new_game();
    let mut apu = APU::new();
    let mut sprites = SpriteState::new();
    for _ in 0..62 {
        sprites.add(1, 1, 1, 1).unwrap();
    }
    let mut b: Buffer<20> = Buffer::new();
    assert_eq!(frame(&mut g, 0, &mut apu, &mut sprites, &mut b), Err(FrameError::SpritesFull));
    assert_eq!(b.render().len(), 5);
}

#[test]
fn death_text_needs_eleven_bytes() {
    let mut apu = APU::new();
    let mut small: Buffer<10> = Buffer::new();
    assert_eq!(on_player_death(&mut apu, &mut small), Err(BufferError::Full));
    assert!(small.render().is_empty());
    assert!(apu.is_playing());
    let mut big: Buffer<11> = Buffer::new();
    assert_eq!(on_player_death(&mut apu, &mut big), Ok(()));
    assert_eq!(big.len(), 11);
}
