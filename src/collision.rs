//! Per-axis collision of an entity's bounding box with tiles of one kind.
use vstd::prelude::*;
use crate::level::{get_tile_at, tile_at, Tile};
use crate::vec2::{shifted_spec, x_part, y_part, DPos, Pos, Sign, Vec2};

verus! {

/// For each axis, the sign of the displacement on it when that axis is blocked.
pub type Collision = Vec2<Option<Sign>>;

/// The sign of a displacement, `None` for zero.
pub open spec fn sign_of(d: i8) -> Option<Sign> {
    if d > 0 {
        Some(Sign::Plus)
    } else if d < 0 {
        Some(Sign::Minus)
    } else {
        None
    }
}

/// Corner `k` of a box of side `w`, as an offset from its top left.
pub open spec fn corner(w: i8, k: int) -> DPos {
    if k == 0 {
        Vec2 { x: 0, y: 0 }
    } else if k == 1 {
        Vec2 { x: 0, y: w }
    } else if k == 2 {
        Vec2 { x: w, y: 0 }
    } else {
        Vec2 { x: w, y: w }
    }
}

/// Whether corner `k`, moved by the x part of `d`, lands on `target`.
pub open spec fn probe_x(tiles: Seq<Tile>, target: Tile, w: i8, pos: Pos, d: DPos, k: int) -> bool {
    tile_at(tiles, shifted_spec(shifted_spec(pos, corner(w, k)), x_part(d))) == target
}

/// Whether corner `k`, moved by the y part of `d`, lands on `target`.
pub open spec fn probe_y(tiles: Seq<Tile>, target: Tile, w: i8, pos: Pos, d: DPos, k: int) -> bool {
    tile_at(tiles, shifted_spec(shifted_spec(pos, corner(w, k)), y_part(d))) == target
}

/// Whether any corner moved along x lands on `target`.
pub open spec fn hit_x(tiles: Seq<Tile>, target: Tile, w: i8, pos: Pos, d: DPos) -> bool {
    probe_x(tiles, target, w, pos, d, 0) || probe_x(tiles, target, w, pos, d, 1) || probe_x(
        tiles,
        target,
        w,
        pos,
        d,
        2,
    ) || probe_x(tiles, target, w, pos, d, 3)
}

/// Whether any corner moved along y lands on `target`.
pub open spec fn hit_y(tiles: Seq<Tile>, target: Tile, w: i8, pos: Pos, d: DPos) -> bool {
    probe_y(tiles, target, w, pos, d, 0) || probe_y(tiles, target, w, pos, d, 1) || probe_y(
        tiles,
        target,
        w,
        pos,
        d,
        2,
    ) || probe_y(tiles, target, w, pos, d, 3)
}

/// The collision of a box of side `w` at `pos` moved by `d`: an axis is
/// blocked when some corner moved along that axis alone lands on `target`,
/// and reports the sign of the displacement on it.
#[verifier::opaque]
pub open spec fn collision_spec(tiles: Seq<Tile>, target: Tile, w: i8, pos: Pos, d: DPos) -> Collision {
    Vec2 {
        x: if hit_x(tiles, target, w, pos, d) {
            sign_of(d.x)
        } else {
            None
        },
        y: if hit_y(tiles, target, w, pos, d) {
            sign_of(d.y)
        } else {
            None
        },
    }
}

/// The sign of a displacement, `None` for zero.
pub fn i8_to_sign(i: i8) -> (r: Option<Sign>)
    ensures
        r == sign_of(i),
{
    if i > 0 {
        Some(Sign::Plus)
    } else if i < 0 {
        Some(Sign::Minus)
    } else {
        None
    }
}

/// Probes the four corners of a box of side `width` at `pos`, each moved by
/// the x part and by the y part of `pos_delta`, against `colliding_tile`.
pub fn check_box_collision(
    tiles: &[Tile],
    colliding_tile: Tile,
    width: i8,
    pos: &Pos,
    pos_delta: &DPos,
) -> (r: Collision)
    ensures
        r == collision_spec(tiles@, colliding_tile, width, *pos, *pos_delta),
{
    let corners: [DPos; 4] = [
        DPos::new(0, 0),
        DPos::new(0, width),
        DPos::new(width, 0),
        DPos::new(width, width),
    ];
    let mut collision: Collision = Vec2 { x: None, y: None };
    let mut k: usize = 0;
    while k < 4
        invariant
            k <= 4,
            forall|j: int| 0 <= j < 4 ==> corners@[j] == corner(width, j),
            collision.x == if exists|j: int|
                0 <= j < k && probe_x(tiles@, colliding_tile, width, *pos, *pos_delta, j) {
                sign_of(pos_delta.x)
            } else {
                None
            },
            collision.y == if exists|j: int|
                0 <= j < k && probe_y(tiles@, colliding_tile, width, *pos, *pos_delta, j) {
                sign_of(pos_delta.y)
            } else {
                None
            },
        decreases 4 - k,
    {
        let box_pos = pos.shifted(&corners[k]);
        let tile_x = get_tile_at(tiles, &box_pos.shifted(&pos_delta.x_vec()));
        let tile_y = get_tile_at(tiles, &box_pos.shifted(&pos_delta.y_vec()));
        proof {
            let (t, c, w, p, d) = (tiles@, colliding_tile, width, *pos, *pos_delta);
            assert(probe_x(t, c, w, p, d, k as int) == (tile_x == c));
            assert(probe_y(t, c, w, p, d, k as int) == (tile_y == c));
            if tile_x != c {
                assert forall|j: int| 0 <= j < k + 1 && probe_x(t, c, w, p, d, j) implies 0 <= j
                    < k by {}
            }
            if tile_y != c {
                assert forall|j: int| 0 <= j < k + 1 && probe_y(t, c, w, p, d, j) implies 0 <= j
                    < k by {}
            }
        }
        if tile_x == colliding_tile {
            collision.x = i8_to_sign(pos_delta.x);
        }
        if tile_y == colliding_tile {
            collision.y = i8_to_sign(pos_delta.y);
        }
        k = k + 1;
    }
    let ghost (t, c, w, p, d) = (tiles@, colliding_tile, width, *pos, *pos_delta);
    reveal(collision_spec);
    assert(hit_x(t, c, w, p, d) == exists|j: int| 0 <= j < 4 && probe_x(t, c, w, p, d, j)) by {
        if hit_x(t, c, w, p, d) {
            if probe_x(t, c, w, p, d, 0) {
                assert(0 <= 0 < 4 && probe_x(t, c, w, p, d, 0));
            } else if probe_x(t, c, w, p, d, 1) {
                assert(0 <= 1 < 4 && probe_x(t, c, w, p, d, 1));
            } else if probe_x(t, c, w, p, d, 2) {
                assert(0 <= 2 < 4 && probe_x(t, c, w, p, d, 2));
            } else {
                assert(0 <= 3 < 4 && probe_x(t, c, w, p, d, 3));
            }
        }
    }
    assert(hit_y(t, c, w, p, d) == exists|j: int| 0 <= j < 4 && probe_y(t, c, w, p, d, j)) by {
        if hit_y(t, c, w, p, d) {
            if probe_y(t, c, w, p, d, 0) {
                assert(0 <= 0 < 4 && probe_y(t, c, w, p, d, 0));
            } else if probe_y(t, c, w, p, d, 1) {
                assert(0 <= 1 < 4 && probe_y(t, c, w, p, d, 1));
            } else if probe_y(t, c, w, p, d, 2) {
                assert(0 <= 2 < 4 && probe_y(t, c, w, p, d, 2));
            } else {
                assert(0 <= 3 < 4 && probe_y(t, c, w, p, d, 3));
            }
        }
    }
    collision
}

/// An axis with no displacement is never blocked.
pub proof fn lemma_still_axis_unblocked(tiles: Seq<Tile>, target: Tile, w: i8, pos: Pos, d: DPos)
    ensures
        d.x == 0 ==> collision_spec(tiles, target, w, pos, d).x is None,
        d.y == 0 ==> collision_spec(tiles, target, w, pos, d).y is None,
{
    reveal(collision_spec);
}

/// With no displacement nothing is blocked.
pub proof fn lemma_zero_delta_unblocked(tiles: Seq<Tile>, target: Tile, w: i8, pos: Pos)
    ensures
        collision_spec(tiles, target, w, pos, Vec2 { x: 0i8, y: 0i8 }) == (Vec2 {
            x: None::<Sign>,
            y: None::<Sign>,
        }),
{
    reveal(collision_spec);
}

/// A box whose moved corners all land on `target` is blocked on both axes
/// when it moves on both, each axis reporting the sign of its displacement.
pub proof fn lemma_enclosed_blocked(tiles: Seq<Tile>, target: Tile, w: i8, pos: Pos, d: DPos)
    requires
        d.x != 0,
        d.y != 0,
        forall|k: int|
            0 <= k < 4 ==> probe_x(tiles, target, w, pos, d, k) && probe_y(
                tiles,
                target,
                w,
                pos,
                d,
                k,
            ),
    ensures
        collision_spec(tiles, target, w, pos, d).x == sign_of(d.x),
        collision_spec(tiles, target, w, pos, d).y == sign_of(d.y),
        collision_spec(tiles, target, w, pos, d).x is Some,
        collision_spec(tiles, target, w, pos, d).y is Some,
{
    reveal(collision_spec);
    assert(probe_x(tiles, target, w, pos, d, 0));
    assert(probe_y(tiles, target, w, pos, d, 0));
}

} // verus!
