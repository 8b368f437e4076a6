//! A snake game on the same engine: the snake steers by the controller,
//! grows on food, and dies on leaving the board or biting itself.
use vstd::prelude::*;
use crate::apu::{Sfx, APU};
use crate::capped_vec::CappedVec;
use crate::io::{DOWN, LEFT, RIGHT, UP};
use crate::sprites::{with_record, SpriteState, SPRITE_CAPACITY};
use crate::vec2::{wrap_i8, DPos, Vec2};

verus! {

/// Width of the board in pixels.
pub const WIDTH: u8 = 224;

/// Height of the board in pixels.
pub const HEIGHT: u8 = 208;

/// Segments a snake can have.
pub const MAX_SEGMENTS: usize = 64;

/// Sprite tile of a segment: `o` in the tile set's character range.
pub const SEGMENT_SPRITE: u8 = 79;

/// Sprite tile of the food: `*` in the tile set's character range.
pub const FOOD_SPRITE: u8 = 10;

/// A cell of the board; coordinates are signed so that leaving the board
/// at the top or left shows as a negative value.
#[derive(Copy, Clone, PartialEq, Eq, Structural, Debug)]
pub struct Pos {
    pub x: i8,
    pub y: i8,
}

/// `p` moved by `d`, each coordinate wrapping in the signed 8-bit range.
pub open spec fn shifted_cell(p: Pos, d: DPos) -> Pos {
    Pos { x: wrap_i8(p.x + d.x), y: wrap_i8(p.y + d.y) }
}

impl Pos {
    /// This cell moved by `vector`, each coordinate wrapping.
    pub fn shifted(&self, vector: &Vec2<i8>) -> (r: Pos)
        ensures
            r == shifted_cell(*self, *vector),
    {
        let x = self.x.wrapping_add(vector.x);
        let y = self.y.wrapping_add(vector.y);
        proof {
            let (a, b, c, d) = (self.x, vector.x, self.y, vector.y);
            assert(a.wrapping_add(b) == wrap_i8(a + b)) by (bit_vector);
            assert(c.wrapping_add(d) == wrap_i8(c + d)) by (bit_vector);
        }
        Pos { x, y }
    }
}

/// The generator's next byte: rotate left by one, then add one, wrapping.
pub open spec fn simple_rng_spec(seed: u8) -> u8 {
    ((((seed as int * 2) % 256 + seed as int / 128) + 1) % 256) as u8
}

/// A food cell from two bytes of the generator, and its state after them.
pub open spec fn random_cell(seed: u8) -> (Pos, u8) {
    let a = simple_rng_spec(seed);
    let b = simple_rng_spec(a);
    (Pos { x: wrap_i8((a % WIDTH) as int), y: wrap_i8((b % HEIGHT) as int) }, b)
}

/// The heading after the held buttons: each direction is taken unless the
/// snake is heading straight against it; later buttons win (left, right,
/// up, down).
pub open spec fn turned(buttons: u8, d: DPos) -> DPos {
    let right = Vec2 { x: 1i8, y: 0i8 };
    let left = Vec2 { x: -1i8, y: 0i8 };
    let down = Vec2 { x: 0i8, y: 1i8 };
    let up = Vec2 { x: 0i8, y: -1i8 };
    let d1 = if buttons & LEFT != 0 && d != right {
        left
    } else {
        d
    };
    let d2 = if buttons & RIGHT != 0 && d1 != left {
        right
    } else {
        d1
    };
    let d3 = if buttons & UP != 0 && d2 != down {
        up
    } else {
        d2
    };
    if buttons & DOWN != 0 && d3 != up {
        down
    } else {
        d3
    }
}

/// The segments after one move: a new head one step along `d`, and every
/// other segment where the one before it was.
pub open spec fn moved(segs: Seq<Pos>, d: DPos) -> Seq<Pos> {
    seq![shifted_cell(segs[0], d)] + segs.subrange(0, segs.len() - 1)
}

/// Whether a head is off the board; the board's right and bottom edges lie
/// beyond every signed 8-bit coordinate.
pub open spec fn off_board(p: Pos) -> bool {
    p.x < 0 || p.x >= WIDTH || p.y < 0 || p.y >= HEIGHT
}

/// Whether the head has left the board or lies on another segment.
pub open spec fn crashed(segs: Seq<Pos>) -> bool {
    off_board(segs[0]) || exists|j: int| 1 <= j < segs.len() && #[trigger] segs[j] == segs[0]
}

/// The generator's next byte.
pub fn simple_rng(seed: &mut u8) -> (r: u8)
    ensures
        r == simple_rng_spec(*old(seed)),
        *final(seed) == r,
{
    let s = *seed;
    *seed = (s << 1u8) | (s >> 7u8);
    *seed = seed.wrapping_add(1);
    assert(((s << 1u8) | (s >> 7u8)).wrapping_add(1) == simple_rng_spec(s)) by (bit_vector);
    *seed
}

/// A random food cell.
pub fn random_pos(seed: &mut u8) -> (r: Pos)
    ensures
        (r, *final(seed)) == random_cell(*old(seed)),
{
    let a = simple_rng(seed) % WIDTH;
    let b = simple_rng(seed) % HEIGHT;
    proof {
        assert((a as i8) == wrap_i8(a as int)) by (bit_vector);
        assert((b as i8) == wrap_i8(b as int)) by (bit_vector);
    }
    Pos { x: a as i8, y: b as i8 }
}

/// The whole state of a snake game.
pub struct SnakeGame {
    rng: u8,
    segments: CappedVec<Pos, MAX_SEGMENTS>,
    direction: DPos,
    food: Pos,
    alive: bool,
}

impl SnakeGame {
    /// The generator's state.
    pub closed spec fn seed(&self) -> u8 {
        self.rng
    }

    /// The segments, head first.
    pub closed spec fn segments(&self) -> Seq<Pos> {
        self.segments@
    }

    /// The heading.
    pub closed spec fn direction(&self) -> DPos {
        self.direction
    }

    /// The food's cell.
    pub closed spec fn food(&self) -> Pos {
        self.food
    }

    /// Whether the snake is alive.
    pub closed spec fn alive(&self) -> bool {
        self.alive
    }

    /// The snake has a head and fits its capacity.
    pub closed spec fn wf(&self) -> bool {
        self.segments.wf() && self.segments@.len() >= 1
    }

    /// Sets up a game in `some_game`: a one-segment snake at (16, 16) heading
    /// right, the generator at 42, and food from the generator's first two
    /// bytes (the game's own generator stays at 42).
    pub fn new(some_game: &mut Option<SnakeGame>)
        ensures
            *final(some_game) is Some,
            ({
                let g = (*final(some_game))->Some_0;
                &&& g.wf()
                &&& g.segments() == seq![Pos { x: 16, y: 16 }]
                &&& g.direction() == (Vec2 { x: 1i8, y: 0i8 })
                &&& g.seed() == 42
                &&& g.food() == random_cell(42).0
                &&& g.alive()
            }),
    {
        let mut segments: CappedVec<Pos, MAX_SEGMENTS> = CappedVec::new();
        segments.push(Pos { x: 16, y: 16 });
        assert(segments@ =~= seq![Pos { x: 16, y: 16 }]);
        let mut rng: u8 = 42;
        let food = random_pos(&mut rng);
        *some_game = Some(
            SnakeGame { rng: 42, segments, direction: DPos::new(1, 0), food, alive: true },
        );
    }

    /// The food's cell.
    pub fn food_cell(&self) -> (r: Pos)
        ensures
            r == self.food(),
    {
        self.food
    }

    /// Whether the snake is alive.
    pub fn is_alive(&self) -> (r: bool)
        ensures
            r == self.alive(),
    {
        self.alive
    }

    /// The segments, head first.
    pub fn body(&self) -> (r: &[Pos])
        ensures
            r@ == self.segments(),
    {
        self.segments.iter()
    }

    /// Turns the snake by the held buttons.
    fn update_direction(&mut self, buttons: u8)
        ensures
            *final(self) == (SnakeGame { direction: turned(buttons, old(self).direction), ..*old(self) }),
    {
        let right = DPos::new(1, 0);
        let left = DPos::new(-1, 0);
        let down = DPos::new(0, 1);
        let up = DPos::new(0, -1);
        if buttons & LEFT != 0 && self.direction != right {
            self.direction = left;
        }
        if buttons & RIGHT != 0 && self.direction != left {
            self.direction = right;
        }
        if buttons & UP != 0 && self.direction != down {
            self.direction = up;
        }
        if buttons & DOWN != 0 && self.direction != up {
            self.direction = down;
        }
    }

    /// Moves every segment one place along the snake, the head one step
    /// along the heading.
    fn move_snake(&mut self)
        requires
            old(self).wf(),
        ensures
            final(self).wf(),
            final(self).segments@ == moved(old(self).segments@, old(self).direction),
            final(self).rng == old(self).rng,
            final(self).direction == old(self).direction,
            final(self).food == old(self).food,
            final(self).alive == old(self).alive,
    {
        let ghost segs = self.segments@;
        let new_head = self.segments.read(0).shifted(&self.direction);
        let n = self.segments.len();
        let mut i: usize = n - 1;
        while i > 0
            invariant
                1 <= n == segs.len(),
                i < n,
                self.segments.wf(),
                self.segments@.len() == n,
                self.rng == old(self).rng,
                self.direction == old(self).direction,
                self.food == old(self).food,
                self.alive == old(self).alive,
                forall|j: int| 0 <= j <= i ==> #[trigger] self.segments@[j] == segs[j],
                forall|j: int| i < j < n ==> #[trigger] self.segments@[j] == segs[j - 1],
            decreases i,
        {
            let previous = *self.segments.read(i - 1);
            self.segments.write(i, previous);
            i = i - 1;
        }
        self.segments.write(0, new_head);
        assert(self.segments@ =~= moved(segs, self.direction));
    }

    /// Kills the snake, with the game-over cue, when its head has left the
    /// board or lies on another segment.
    fn check_collisions(&mut self, apu: &mut APU)
        requires
            old(self).wf(),
        ensures
            final(self).wf(),
            final(self).segments@ == old(self).segments@,
            final(self).rng == old(self).rng,
            final(self).direction == old(self).direction,
            final(self).food == old(self).food,
            crashed(old(self).segments@) ==> !final(self).alive && final(apu).cue() == Sfx::Topout
                && final(apu).frame() == 0,
            !crashed(old(self).segments@) ==> final(self).alive == old(self).alive && *final(apu)
                == *old(apu),
    {
        let head = *self.segments.read(0);
        if head.x < 0 || (head.x as i16) >= WIDTH as i16 || head.y < 0 || (head.y as i16)
            >= HEIGHT as i16 {
            self.alive = false;
            apu.play_sfx(Sfx::Topout);
            return;
        }
        let n = self.segments.len();
        let mut j: usize = 1;
        while j < n
            invariant
                1 <= j <= n,
                n == self.segments@.len(),
                self.segments.wf(),
                head == self.segments@[0],
                self.segments@ == old(self).segments@,
                self.alive == old(self).alive,
                self.rng == old(self).rng,
                self.direction == old(self).direction,
                self.food == old(self).food,
                *apu == *old(apu),
                !off_board(head),
                forall|k: int| 1 <= k < j ==> #[trigger] self.segments@[k] != head,
            decreases n - j,
        {
            if *self.segments.read(j) == head {
                self.alive = false;
                apu.play_sfx(Sfx::Topout);
                return;
            }
            j = j + 1;
        }
    }

    /// Adds a segment where the tail is; fails when the snake is full.
    fn grow_snake(&mut self) -> (r: Result<(), ()>)
        requires
            old(self).wf(),
        ensures
            final(self).wf(),
            r is Ok <==> old(self).segments@.len() < MAX_SEGMENTS,
            r is Ok ==> final(self).segments@ == old(self).segments@.push(old(self).segments@.last()),
            r is Err ==> final(self).segments@ == old(self).segments@,
            final(self).rng == old(self).rng,
            final(self).direction == old(self).direction,
            final(self).food == old(self).food,
            final(self).alive == old(self).alive,
    {
        let tail = *self.segments.read(self.segments.len() - 1);
        self.segments.try_push(tail)
    }

    /// Advances a living snake by one frame: turn, move, check for a crash,
    /// then eat food under the head, growing and drawing new food. A dead
    /// snake stays. Fails when the snake eats with no room left to grow.
    pub fn step(&mut self, buttons: u8, apu: &mut APU) -> (r: Result<(), ()>)
        requires
            old(self).wf(),
        ensures
            final(self).wf(),
            !old(self).alive() ==> *final(self) == *old(self) && *final(apu) == *old(apu) && r is Ok,
            old(self).alive() ==> ({
                let d = turned(buttons, old(self).direction());
                let segs = moved(old(self).segments(), d);
                let eats = segs[0] == old(self).food();
                &&& final(self).direction() == d
                &&& final(self).alive() == !crashed(segs)
                &&& (r is Err <==> eats && segs.len() >= MAX_SEGMENTS)
                &&& eats && segs.len() < MAX_SEGMENTS ==> final(self).segments() == segs.push(segs.last())
                &&& !(eats && segs.len() < MAX_SEGMENTS) ==> final(self).segments() == segs
                &&& eats ==> (final(self).food(), final(self).seed()) == random_cell(old(self).seed())
                    && final(apu).cue() == Sfx::LevelUp && final(apu).frame() == 0
                &&& !eats ==> final(self).food() == old(self).food() && final(self).seed() == old(self).seed()
                &&& !eats && crashed(segs) ==> final(apu).cue() == Sfx::Topout && final(apu).frame() == 0
                &&& !eats && !crashed(segs) ==> *final(apu) == *old(apu)
            }),
    {
        if !self.alive {
            return Ok(());
        }
        self.update_direction(buttons);
        self.move_snake();
        self.check_collisions(apu);
        let mut result: Result<(), ()> = Ok(());
        if *self.segments.read(0) == self.food {
            result = self.grow_snake();
            self.food = random_pos(&mut self.rng);
            apu.play_sfx(Sfx::LevelUp);
        }
        result
    }

    /// Stages a sprite for each segment, then one for the food; fails when
    /// the sprite table has no room for them all.
    pub fn draw(&self, sprites: &mut SpriteState) -> (r: Result<(), ()>)
        requires
            self.wf(),
            old(sprites).wf(),
        ensures
            final(sprites).wf(),
            ({
                let room = old(sprites).count() + self.segments().len() + 1 <= SPRITE_CAPACITY;
                &&& r is Ok <==> room
                &&& room ==> final(sprites).count() == old(sprites).count() + self.segments().len() + 1
                    && final(sprites).bytes() == with_record(
                    segment_records(old(sprites).bytes(), old(sprites).count(), self.segments()),
                    old(sprites).count() + self.segments().len(),
                    self.food().x as u8,
                    self.food().y as u8,
                    FOOD_SPRITE,
                    1,
                )
            }),
    {
        let ghost spr0 = *sprites;
        proof {
            spr0.lemma_wf_bounds();
        }
        let n = self.segments.len();
        let mut full = false;
        let mut k: usize = 0;
        assert(self.segments@.subrange(0, 0) =~= Seq::<Pos>::empty());
        while k < n
            invariant
                k <= n,
                n == self.segments@.len(),
                self.segments.wf(),
                sprites.wf(),
                0 <= spr0.count() <= SPRITE_CAPACITY,
                sprites.count() == if spr0.count() + k <= SPRITE_CAPACITY {
                    spr0.count() + k
                } else {
                    SPRITE_CAPACITY as int
                },
                full == (spr0.count() + k > SPRITE_CAPACITY),
                spr0.count() + k <= SPRITE_CAPACITY ==> sprites.bytes() == segment_records(
                    spr0.bytes(),
                    spr0.count(),
                    self.segments@.subrange(0, k as int),
                ),
            decreases n - k,
        {
            let seg = *self.segments.read(k);
            if sprites.add(seg.x as u8, seg.y as u8, SEGMENT_SPRITE, 0).is_err() {
                full = true;
            }
            proof {
                let pre = self.segments@.subrange(0, k as int + 1);
                assert(pre.drop_last() =~= self.segments@.subrange(0, k as int));
                assert(pre.last() == self.segments@[k as int]);
            }
            k = k + 1;
        }
        assert(self.segments@.subrange(0, n as int) =~= self.segments@);
        if sprites.add(self.food.x as u8, self.food.y as u8, FOOD_SPRITE, 1).is_err() {
            full = true;
        }
        if full {
            Err(())
        } else {
            Ok(())
        }
    }
}

/// `bytes` with a segment record for each cell of `segs` from slot `start` on.
pub open spec fn segment_records(bytes: Seq<u8>, start: int, segs: Seq<Pos>) -> Seq<u8>
    decreases segs.len(),
{
    if segs.len() == 0 {
        bytes
    } else {
        let p = segs.last();
        with_record(
            segment_records(bytes, start, segs.drop_last()),
            start + segs.len() - 1,
            p.x as u8,
            p.y as u8,
            SEGMENT_SPRITE,
            0,
        )
    }
}

} // verus!
