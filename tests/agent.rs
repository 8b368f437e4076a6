use heart_man::agent::{player_movement_delta, update_meanie, update_player, Meanie, Player, TURN_LIMIT};
use heart_man::apu::{Sfx, APU};
use heart_man::io::{DOWN, LEFT, RIGHT, UP};
use heart_man::level::{make_level, Tile};
use heart_man::rng::{next_seed, Rng};
use heart_man::vec2::{DPos, Orientation, Vec2};

fn open_grid() -> Vec<Tile> {
    make_level(&vec![0x0200u16; 128])
}

fn meanie(x: u8, y: u8, vx: i8, vy: i8, o: Orientation, n: u8) -> Meanie {
    Meanie { pos: Vec2 { x, y }, vel: DPos::new(vx, vy), orientation: o, n_turns: n }
}

#[test]
fn movement_from_buttons() {
    let p = Vec2 { x: 50, y: 50 };
    assert_eq!(player_movement_delta(0, &p), DPos::zero());
    assert_eq!(player_movement_delta(LEFT | UP, &p), DPos::new(-1, -1));
    assert_eq!(player_movement_delta(RIGHT | DOWN, &p), DPos::new(1, 1));
    assert_eq!(player_movement_delta(LEFT | RIGHT, &p), DPos::new(1, 0));
    // no step towards an edge the player stands at
    assert_eq!(player_movement_delta(LEFT | UP, &Vec2 { x: 0, y: 0 }), DPos::zero());
    assert_eq!(player_movement_delta(RIGHT, &Vec2 { x: 216, y: 0 }), DPos::zero());
    assert_eq!(player_movement_delta(RIGHT, &Vec2 { x: 215, y: 0 }), DPos::new(1, 0));
    // the bottom edge is the playfield's height
    assert_eq!(player_movement_delta(DOWN, &Vec2 { x: 0, y: 200 }), DPos::zero());
    assert_eq!(player_movement_delta(DOWN, &Vec2 { x: 0, y: 199 }), DPos::new(0, 1));
}

#[test]
fn player_slides_along_a_wall_and_locks_once() {
    let t = open_grid();
    let mut apu = APU::new();
    let mut p = Player { pos: Vec2 { x: 8, y: 15 }, dead: false };
    update_player(&mut p, &t, LEFT | DOWN, &mut apu);
    assert_eq!(p.pos, Vec2 { x: 8, y: 16 });
    assert!(apu.is_playing());
    // the cue is not restarted while it plays
    apu.run_sfx();
    let frame_one = apu.run_sfx();
    update_player(&mut p, &t, LEFT, &mut apu);
    assert_eq!(p.pos, Vec2 { x: 8, y: 16 });
    assert_eq!(apu.run_sfx(), frame_one);
}

#[test]
fn blocked_axis_matches_the_wall() {
    let t = open_grid();
    let mut apu = APU::new();
    // the wall is on the left: only the x step is stopped
    let mut p = Player { pos: Vec2 { x: 8, y: 15 }, dead: false };
    update_player(&mut p, &t, LEFT, &mut apu);
    assert_eq!(p.pos, Vec2 { x: 8, y: 15 });
    // the wall is above: only the y step is stopped
    let mut q = Player { pos: Vec2 { x: 40, y: 15 }, dead: false };
    update_player(&mut q, &t, UP | RIGHT, &mut apu);
    assert_eq!(q.pos, Vec2 { x: 41, y: 15 });
}

#[test]
fn dead_player_stays() {
    let t = open_grid();
    let mut apu = APU::new();
    let mut p = Player { pos: Vec2 { x: 40, y: 16 }, dead: true };
    update_player(&mut p, &t, RIGHT, &mut apu);
    assert_eq!(p, Player { pos: Vec2 { x: 40, y: 16 }, dead: true });
    assert!(!apu.is_playing());
}

#[test]
fn free_agent_moves_along_its_velocity() {
    let t = open_grid();
    let mut rng = Rng::new(Some(0x1234));
    let mut m = meanie(40, 16, 1, 0, Orientation::Clockwise, 0);
    update_meanie(&t, &mut m, &mut rng);
    assert_eq!(m, meanie(41, 16, 1, 0, Orientation::Clockwise, 0));
    assert_eq!(rng.0, 0x1234);
}

#[test]
fn agent_in_a_pocket_keeps_turning_and_resets() {
    let mut t = vec![Tile::Wall; 96];
    t[33] = Tile::Nothing;
    let mut rng = Rng::new(Some(0x1234));
    let mut m = meanie(8, 15, 1, 0, Orientation::Clockwise, 0);
    let expected = [
        meanie(9, 15, 1, 0, Orientation::Clockwise, 0),
        meanie(9, 16, 0, 1, Orientation::Clockwise, 1),
        meanie(8, 16, -1, 0, Orientation::Clockwise, 2),
        meanie(8, 15, 0, -1, Orientation::Clockwise, 3),
        meanie(9, 15, 1, 0, Orientation::Clockwise, 4),
        meanie(9, 16, 0, 1, Orientation::Clockwise, 5),
        meanie(8, 16, -1, 0, Orientation::Widdershins, 0),
    ];
    for e in expected.iter() {
        update_meanie(&t, &mut m, &mut rng);
        assert_eq!(m, *e);
        assert!(m.n_turns <= TURN_LIMIT);
    }
    assert_eq!(rng.0, next_seed(0x1234));
    for _ in 0..200 {
        update_meanie(&t, &mut m, &mut rng);
        assert!(m.n_turns <= TURN_LIMIT);
        assert!(m.pos.x >= 8 && m.pos.x <= 9 && m.pos.y >= 15 && m.pos.y <= 16);
    }
}

#[test]
fn agent_at_the_top_uses_all_tries_and_draws_a_sense() {
    let t = vec![Tile::Nothing; 96];
    let mut rng = Rng::new(Some(0x1234));
    let mut m = meanie(8, 0, 0, -1, Orientation::Widdershins, 4);
    update_meanie(&t, &mut m, &mut rng);
    assert_eq!(m, meanie(9, 0, 1, 0, Orientation::Widdershins, 0));
    assert_eq!(rng.0, 0x891a);
}

#[test]
fn agent_bounces_in_a_corridor() {
    // one open row of three tiles, walls all round
    let mut t = vec![Tile::Wall; 96];
    for c in 1..4 {
        t[32 + c] = Tile::Nothing;
    }
    let mut rng = Rng::new(Some(0x1234));
    let mut m = meanie(8, 15, 1, 0, Orientation::Clockwise, 0);
    let mut reversals = 0;
    let mut last_vx = 1i8;
    for _ in 0..300 {
        update_meanie(&t, &mut m, &mut rng);
        assert!(m.n_turns <= TURN_LIMIT);
        assert!(m.pos.x >= 8 && m.pos.x <= 25, "left the corridor at {:?}", m.pos);
        assert!(m.pos.y >= 15 && m.pos.y <= 16);
        if m.vel.x != 0 && m.vel.x != last_vx {
            reversals += 1;
            last_vx = m.vel.x;
        }
    }
    assert!(reversals >= 10);
}

#[test]
fn large_turn_count_is_reset() {
    let t = open_grid();
    let mut rng = Rng::new(Some(0x1234));
    let mut m = meanie(40, 16, 1, 0, Orientation::Clockwise, 200);
    update_meanie(&t, &mut m, &mut rng);
    assert_eq!(m.pos, Vec2 { x: 41, y: 16 });
    assert_eq!(m.n_turns, 0);
    assert_eq!(rng.0, next_seed(0x1234));
}
