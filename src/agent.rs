//! Per-frame movement: the player, steered by the controller and stopped by
//! walls, and the autonomous agents, which turn when blocked.
use vstd::prelude::*;
use crate::apu::{Sfx, APU};
use crate::collision::{check_box_collision, collision_spec};
use crate::io::{DOWN, LEFT, RIGHT, UP};
use crate::level::Tile;
use crate::rng::{next_seed_spec, seed_to_rng_spec, Rng};
use crate::vec2::{rotate_spec, shifted_spec, wrap_i8, DPos, Orientation, Pos, Vec2};

verus! {

/// Side of the player's and the agents' bounding box.
pub const PLAYER_WIDTH: u8 = 6;

/// Pixels the player moves per frame on a held direction.
pub const PLAYER_SPEED: i8 = 1;

/// Width of the playfield in pixels.
pub const WIDTH: u8 = 224;

/// Height of the playfield in pixels.
pub const HEIGHT: u8 = 208;

/// Frames per update.
pub const DT: u8 = 1;

/// Pixels an agent moves per frame.
pub const SPEED: u8 = 1;

/// Headings an agent tries in one frame before it gives up.
pub const MAX_TRIES: u8 = 3;

/// Turns after which an agent draws a new turning sense.
pub const TURN_LIMIT: u8 = 5;

/// The player.
#[derive(Copy, Clone, PartialEq, Eq, Structural, Debug)]
pub struct Player {
    pub pos: Pos,
    pub dead: bool,
}

/// An autonomous agent: it follows its velocity and turns a quarter in its
/// sense whenever that is blocked.
#[derive(Copy, Clone, PartialEq, Eq, Structural, Debug)]
pub struct Meanie {
    pub pos: Pos,
    pub vel: DPos,
    pub orientation: Orientation,
    pub n_turns: u8,
}

/// The player's intended displacement: one step per held direction, none
/// towards an edge it stands at; right wins over left, down over up.
pub open spec fn movement_delta(buttons: u8, p: Pos) -> DPos {
    Vec2 {
        x: if buttons & RIGHT != 0 && p.x + 8 < WIDTH {
            PLAYER_SPEED
        } else if buttons & LEFT != 0 && p.x > 0 {
            (-PLAYER_SPEED) as i8
        } else {
            0
        },
        y: if buttons & DOWN != 0 && p.y + 8 < HEIGHT {
            PLAYER_SPEED
        } else if buttons & UP != 0 && p.y > 0 {
            (-PLAYER_SPEED) as i8
        } else {
            0
        },
    }
}

/// The player's displacement after walls: each blocked axis zeroed.
pub open spec fn player_step(tiles: Seq<Tile>, buttons: u8, p: Pos) -> DPos {
    let d = movement_delta(buttons, p);
    let c = collision_spec(tiles, Tile::Wall, PLAYER_WIDTH as i8, p, d);
    Vec2 { x: if c.x is Some {
        0
    } else {
        d.x
    }, y: if c.y is Some {
        0
    } else {
        d.y
    } }
}

/// Whether the player runs into a wall on some axis.
pub open spec fn player_blocked(tiles: Seq<Tile>, buttons: u8, p: Pos) -> bool {
    let c = collision_spec(tiles, Tile::Wall, PLAYER_WIDTH as i8, p, movement_delta(buttons, p));
    c.x is Some || c.y is Some
}

/// Whether an agent at `p` cannot take displacement `d`: it would leave the
/// top of the screen, or a wall blocks some axis.
pub open spec fn agent_blocked(tiles: Seq<Tile>, p: Pos, d: DPos) -> bool {
    (d.y < 0 && p.y < SPEED * DT) || {
        let c = collision_spec(tiles, Tile::Wall, PLAYER_WIDTH as i8, p, d);
        !(c.x is None && c.y is None)
    }
}

/// An agent's steering with `tries` headings left: the displacement it
/// takes, its new velocity, and the turns it made. A free heading is taken;
/// a blocked one is turned, and the last turned heading is taken untested.
pub open spec fn steer(tiles: Seq<Tile>, p: Pos, vel: DPos, o: Orientation, tries: nat) -> (
    DPos,
    DPos,
    nat,
)
    decreases tries,
{
    if tries == 0 {
        (Vec2 { x: 0, y: 0 }, vel, 0)
    } else if !agent_blocked(tiles, p, vel) {
        (vel, vel, 0)
    } else {
        let turned = rotate_spec(vel, o);
        if tries == 1 {
            (turned, turned, 1)
        } else {
            let (d, v, t) = steer(tiles, p, turned, o, (tries - 1) as nat);
            (d, v, t + 1)
        }
    }
}

/// The sense that a random byte picks: even clockwise, odd widdershins.
pub open spec fn orientation_of(b: u8) -> Orientation {
    if b % 2 == 0 {
        Orientation::Clockwise
    } else {
        Orientation::Widdershins
    }
}

/// An agent after one frame, and the generator state after it.
pub open spec fn meanie_after(tiles: Seq<Tile>, m: Meanie, seed: u16) -> (Meanie, u16) {
    let (d, v, t) = steer(tiles, m.pos, m.vel, m.orientation, MAX_TRIES as nat);
    let turns = m.n_turns + t;
    let moved = Meanie { pos: shifted_spec(m.pos, d), vel: v, orientation: m.orientation, n_turns: turns as u8 };
    if turns > TURN_LIMIT {
        let s2 = next_seed_spec(seed);
        (Meanie { orientation: orientation_of(seed_to_rng_spec(s2)), n_turns: 0, ..moved }, s2)
    } else {
        (moved, seed)
    }
}

/// The player's intended displacement from the held buttons.
pub fn player_movement_delta(buttons: u8, player_pos: &Pos) -> (r: DPos)
    ensures
        r == movement_delta(buttons, *player_pos),
{
    let mut delta = DPos::zero();
    if buttons & LEFT != 0 && player_pos.x > 0 {
        delta.x = -PLAYER_SPEED;
    }
    if buttons & RIGHT != 0 && (player_pos.x as u16) + 8 < WIDTH as u16 {
        delta.x = PLAYER_SPEED;
    }
    if buttons & UP != 0 && player_pos.y > 0 {
        delta.y = -PLAYER_SPEED;
    }
    if buttons & DOWN != 0 && (player_pos.y as u16) + 8 < HEIGHT as u16 {
        delta.y = PLAYER_SPEED;
    }
    delta
}

/// Moves a living player by the held buttons, stopping each axis that a wall
/// blocks; a blocked move starts the lock cue unless a cue is playing. A
/// dead player stays.
pub fn update_player(player: &mut Player, tiles: &[Tile], buttons: u8, apu: &mut APU)
    ensures
        old(player).dead ==> *final(player) == *old(player) && *final(apu) == *old(apu),
        !old(player).dead ==> final(player).dead == false && final(player).pos == shifted_spec(
            old(player).pos,
            player_step(tiles@, buttons, old(player).pos),
        ),
        !old(player).dead && player_blocked(tiles@, buttons, old(player).pos) && !old(
            apu,
        ).is_playing_spec() ==> final(apu).cue() == Sfx::Lock && final(apu).frame() == 0,
        old(player).dead || !player_blocked(tiles@, buttons, old(player).pos) || old(
            apu,
        ).is_playing_spec() ==> *final(apu) == *old(apu),
{
    if player.dead {
        return;
    }
    let mut player_delta = player_movement_delta(buttons, &player.pos);
    let collision = check_box_collision(
        tiles,
        Tile::Wall,
        PLAYER_WIDTH as i8,
        &player.pos,
        &player_delta,
    );
    if collision.x.is_some() {
        player_delta.x = 0;
        if !apu.is_playing() {
            apu.play_sfx(Sfx::Lock);
        }
    }
    if collision.y.is_some() {
        player_delta.y = 0;
        if !apu.is_playing() {
            apu.play_sfx(Sfx::Lock);
        }
    }
    player.pos.inc(&player_delta);
}

/// A random turning sense.
pub fn random_orientation(rng: &mut Rng) -> (r: Orientation)
    ensures
        final(rng).0 == next_seed_spec(old(rng).0),
        r == orientation_of(seed_to_rng_spec(final(rng).0)),
{
    if rng.next() % 2 == 0 {
        Orientation::Clockwise
    } else {
        Orientation::Widdershins
    }
}

/// Moves an agent by one frame: up to `MAX_TRIES` headings, turning on each
/// blocked one; past `TURN_LIMIT` turns it draws a new sense and starts
/// counting again.
pub fn update_meanie(tiles: &[Tile], meanie: &mut Meanie, rng: &mut Rng)
    requires
        old(meanie).n_turns <= 255 - MAX_TRIES,
    ensures
        (*final(meanie), final(rng).0) == meanie_after(tiles@, *old(meanie), old(rng).0),
        final(meanie).n_turns <= TURN_LIMIT,
{
    let mut delta = DPos::zero();
    let ghost m0 = *meanie;
    let mut i: u8 = 0;
    while i < MAX_TRIES
        invariant_except_break
            i == 0 ==> meanie.vel == m0.vel,
            i < MAX_TRIES ==> steer(tiles@, m0.pos, m0.vel, m0.orientation, MAX_TRIES as nat) == ({
                let (d, v, t) = steer(
                    tiles@,
                    m0.pos,
                    meanie.vel,
                    m0.orientation,
                    (MAX_TRIES - i) as nat,
                );
                (d, v, (t + i) as nat)
            }),
            i == MAX_TRIES ==> steer(tiles@, m0.pos, m0.vel, m0.orientation, MAX_TRIES as nat) == (
                delta,
                delta,
                i as nat,
            ),
            i > 0 ==> delta == meanie.vel,
        invariant
            i <= MAX_TRIES,
            meanie.pos == m0.pos,
            meanie.orientation == m0.orientation,
            meanie.n_turns == m0.n_turns + i,
            m0.n_turns <= 255 - MAX_TRIES,
        ensures
            steer(tiles@, m0.pos, m0.vel, m0.orientation, MAX_TRIES as nat) == (
                delta,
                meanie.vel,
                i as nat,
            ),
        decreases MAX_TRIES - i,
    {
        delta = meanie.vel.scaled((SPEED * DT) as i8);
        proof {
            let v = meanie.vel;
            assert(wrap_i8(v.x as int * 1) == v.x) by {
                assert(v.x as int * 1 == v.x as int);
            }
            assert(wrap_i8(v.y as int * 1) == v.y) by {
                assert(v.y as int * 1 == v.y as int);
            }
        }
        let going_offscreen = delta.y < 0 && meanie.pos.y < SPEED * DT;
        if !going_offscreen {
            let collision = check_box_collision(
                tiles,
                Tile::Wall,
                PLAYER_WIDTH as i8,
                &meanie.pos,
                &delta,
            );
            if collision.x.is_none() && collision.y.is_none() {
                break;
            }
        }
        proof {
            let tries = (MAX_TRIES - i) as nat;
            assert(agent_blocked(tiles@, m0.pos, meanie.vel));
            if tries > 1 {
                let turned = rotate_spec(meanie.vel, m0.orientation);
                assert(steer(tiles@, m0.pos, meanie.vel, m0.orientation, tries) == ({
                    let (d, v, t) = steer(tiles@, m0.pos, turned, m0.orientation, (tries - 1) as nat);
                    (d, v, t + 1)
                }));
            }
        }
        delta = delta.rotate(meanie.orientation);
        meanie.vel = delta;
        meanie.n_turns = meanie.n_turns + 1;
        i = i + 1;
    }
    meanie.pos.inc(&delta);
    if meanie.n_turns > TURN_LIMIT {
        meanie.orientation = random_orientation(rng);
        meanie.n_turns = 0;
    }
}

/// Against a wall on one axis only, the player slides: the blocked axis
/// stops and the other keeps its step.
pub proof fn lemma_player_slides(tiles: Seq<Tile>, buttons: u8, p: Pos)
    requires
        collision_spec(tiles, Tile::Wall, PLAYER_WIDTH as i8, p, movement_delta(buttons, p)).x is Some,
        collision_spec(tiles, Tile::Wall, PLAYER_WIDTH as i8, p, movement_delta(buttons, p)).y is None,
    ensures
        player_step(tiles, buttons, p) == (Vec2 { x: 0i8, y: movement_delta(buttons, p).y }),
        shifted_spec(p, player_step(tiles, buttons, p)).x == p.x,
{
    assert(shifted_spec(p, player_step(tiles, buttons, p)).x == crate::vec2::wrap_u8(p.x as int));
}

/// An agent that meets a wall ahead and a wall on its turning side, with the
/// way back free, reverses within the frame: two turns take it to the
/// opposite heading, it steps back by it, and it counts two turns (or draws
/// a new sense past the limit).
pub proof fn lemma_blocked_agent_reverses(tiles: Seq<Tile>, m: Meanie, seed: u16)
    requires
        m.n_turns <= TURN_LIMIT,
        agent_blocked(tiles, m.pos, m.vel),
        agent_blocked(tiles, m.pos, rotate_spec(m.vel, m.orientation)),
        !agent_blocked(tiles, m.pos, rotate_spec(rotate_spec(m.vel, m.orientation), m.orientation)),
    ensures
        ({
            let back = Vec2 { x: wrap_i8(-(m.vel.x as int)), y: wrap_i8(-(m.vel.y as int)) };
            let (m2, s2) = meanie_after(tiles, m, seed);
            &&& rotate_spec(rotate_spec(m.vel, m.orientation), m.orientation) == back
            &&& m2.vel == back
            &&& m2.pos == shifted_spec(m.pos, back)
            &&& m.n_turns + 2 <= TURN_LIMIT ==> m2.n_turns == m.n_turns + 2 && s2 == seed
            &&& m.n_turns + 2 > TURN_LIMIT ==> m2.n_turns == 0 && s2 == next_seed_spec(seed)
        }),
{
    let v1 = rotate_spec(m.vel, m.orientation);
    let v2 = rotate_spec(v1, m.orientation);
    let (x, y) = (m.vel.x, m.vel.y);
    assert(wrap_i8(-(wrap_i8(-(x as int)) as int)) == x) by (bit_vector);
    assert(wrap_i8(-(wrap_i8(-(y as int)) as int)) == y) by (bit_vector);
    assert(steer(tiles, m.pos, v2, m.orientation, 1) == (v2, v2, 0nat));
    assert(steer(tiles, m.pos, v1, m.orientation, 2) == (v2, v2, 1nat));
    assert(steer(tiles, m.pos, m.vel, m.orientation, 3) == (v2, v2, 2nat));
}

/// The agent's headings over one frame: its velocity and its first two
/// quarter turns.
pub open spec fn all_headings_blocked(tiles: Seq<Tile>, m: Meanie) -> bool {
    let v1 = rotate_spec(m.vel, m.orientation);
    let v2 = rotate_spec(v1, m.orientation);
    &&& agent_blocked(tiles, m.pos, m.vel)
    &&& agent_blocked(tiles, m.pos, v1)
    &&& agent_blocked(tiles, m.pos, v2)
}

/// An agent whose every heading is blocked uses up its tries: it takes the
/// third quarter turn, and either counts three more turns or, past the
/// limit, draws a new sense from the generator and starts counting again.
pub proof fn lemma_blocked_agent_exhausts(tiles: Seq<Tile>, m: Meanie, seed: u16)
    requires
        m.n_turns <= TURN_LIMIT,
        all_headings_blocked(tiles, m),
    ensures
        ({
            let v3 = rotate_spec(
                rotate_spec(rotate_spec(m.vel, m.orientation), m.orientation),
                m.orientation,
            );
            let (m2, s2) = meanie_after(tiles, m, seed);
            &&& m2.vel == v3
            &&& m2.pos == shifted_spec(m.pos, v3)
            &&& m.n_turns + 3 <= TURN_LIMIT ==> m2.n_turns == m.n_turns + 3 && m2.orientation
                == m.orientation && s2 == seed
            &&& m.n_turns + 3 > TURN_LIMIT ==> m2.n_turns == 0 && s2 == next_seed_spec(seed)
                && m2.orientation == orientation_of(seed_to_rng_spec(next_seed_spec(seed)))
        }),
{
    let v1 = rotate_spec(m.vel, m.orientation);
    let v2 = rotate_spec(v1, m.orientation);
    let v3 = rotate_spec(v2, m.orientation);
    assert(steer(tiles, m.pos, v2, m.orientation, 1) == (v3, v3, 1nat));
    assert(steer(tiles, m.pos, v1, m.orientation, 2) == (v3, v3, 2nat));
    assert(steer(tiles, m.pos, m.vel, m.orientation, 3) == (v3, v3, 3nat));
}

/// An agent boxed in on every heading for two frames in a row draws a new
/// turning sense in one of them: it never spins without end.
pub proof fn lemma_boxed_agent_resets_within_two_frames(tiles: Seq<Tile>, m: Meanie, seed: u16)
    requires
        m.n_turns <= TURN_LIMIT,
        all_headings_blocked(tiles, m),
        all_headings_blocked(tiles, meanie_after(tiles, m, seed).0),
    ensures
        meanie_after(tiles, m, seed).0.n_turns == 0 || meanie_after(
            tiles,
            meanie_after(tiles, m, seed).0,
            meanie_after(tiles, m, seed).1,
        ).0.n_turns == 0,
{
    let (m2, s2) = meanie_after(tiles, m, seed);
    lemma_blocked_agent_exhausts(tiles, m, seed);
    assert(m2.n_turns <= TURN_LIMIT);
    lemma_blocked_agent_exhausts(tiles, m2, s2);
}

} // verus!
