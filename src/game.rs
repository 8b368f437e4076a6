//! The game: a generated level, a player who collects coins, and agents that
//! roam it; one `step` per frame, then `draw` into the render queue and the
//! sprite table.
use vstd::prelude::*;
use crate::addr::Addr;
use crate::agent::{
    meanie_after, orientation_of, player_step, random_orientation, update_meanie, update_player,
    Meanie, Player, HEIGHT, PLAYER_WIDTH, TURN_LIMIT, WIDTH, player_blocked,
};
use crate::apu::{Sfx, APU};
use crate::ppu_buffer::{encode, Buffer, BufferError};
use crate::sprites::{with_record, SpriteState, SPRITE_CAPACITY};
use crate::digits::digit_to_ascii;
use crate::capped_vec::CappedVec;
use crate::level::{
    coin_count, count_coins, get_tile_at, lemma_coin_count_bound, lemma_coin_count_take,
    level_tile, make_level, map_pos_to_tile_index, tile_at, tile_index, Tile, GRID_SIZE,
};
use crate::rng::{get_seeds, next_seed_spec, seed_after, seed_to_rng_spec, Rng, INIT_SEED};
use crate::vec2::{l1_spec, shifted_spec, DPos, Pos, Sign, Vec2};
use vstd::string::StringSliceAdditionalSpecFns;

verus! {

/// Draws a generator can spend looking for a free spot before giving up.
pub const MAX_PLACEMENT_TRIES: u16 = 1000;

/// The byte emitted after one step from `seed`, and that step.
pub open spec fn draw_byte(seed: u16) -> (u8, u16) {
    let s = next_seed_spec(seed);
    (seed_to_rng_spec(s), s)
}

/// A random position on the playfield, and the generator state after it.
pub open spec fn random_pos_spec(seed: u16) -> (Pos, u16) {
    let (bx, s1) = draw_byte(seed);
    let (by, s2) = draw_byte(s1);
    (Vec2 { x: bx % WIDTH, y: by % HEIGHT }, s2)
}

/// The sign that a random byte picks: even minus, odd plus.
pub open spec fn sign_of_byte(b: u8) -> Sign {
    if b % 2 == 0 {
        Sign::Minus
    } else {
        Sign::Plus
    }
}

/// The unit step along an axis that a random byte picks: right, down, left, up.
pub open spec fn cardinal_of_byte(b: u8) -> DPos {
    if b % 4 == 0 {
        Vec2 { x: 1, y: 0 }
    } else if b % 4 == 1 {
        Vec2 { x: 0, y: 1 }
    } else if b % 4 == 2 {
        Vec2 { x: -1i8, y: 0 }
    } else {
        Vec2 { x: 0, y: -1i8 }
    }
}

/// Whether a box of side `w` at `p` has `target` under its top left and
/// bottom right corners.
pub open spec fn fits_on(tiles: Seq<Tile>, target: Tile, w: u8, p: Pos) -> bool {
    tile_at(tiles, p) == target && tile_at(tiles, shifted_spec(p, Vec2 { x: w as i8, y: w as i8 }))
        == target
}

/// The first of at most `tries` random positions that fits on `target`, and
/// the generator state after the draws.
pub open spec fn placement(tiles: Seq<Tile>, target: Tile, w: u8, seed: u16, tries: nat) -> (
    Option<Pos>,
    u16,
)
    decreases tries,
{
    if tries == 0 {
        (None, seed)
    } else {
        let (p, s) = random_pos_spec(seed);
        if fits_on(tiles, target, w, p) {
            (Some(p), s)
        } else {
            placement(tiles, target, w, s, (tries - 1) as nat)
        }
    }
}

/// A random position on the playfield.
pub fn random_pos(rng: &mut Rng) -> (r: Pos)
    ensures
        (r, final(rng).0) == random_pos_spec(old(rng).0),
{
    let x = rng.next() % WIDTH;
    let y = rng.next() % HEIGHT;
    Vec2 { x, y }
}

/// A random sign.
pub fn random_sign(rng: &mut Rng) -> (r: Sign)
    ensures
        (r, final(rng).0) == (sign_of_byte(draw_byte(old(rng).0).0), draw_byte(old(rng).0).1),
{
    if rng.next() % 2 == 0 {
        Sign::Minus
    } else {
        Sign::Plus
    }
}

/// A random diagonal unit step.
pub fn random_dir(rng: &mut Rng) -> (r: DPos)
    ensures
        ({
            let (b1, s1) = draw_byte(old(rng).0);
            let (b2, s2) = draw_byte(s1);
            &&& r.x == (if sign_of_byte(b1) == Sign::Plus {
                1i8
            } else {
                -1i8
            })
            &&& r.y == (if sign_of_byte(b2) == Sign::Plus {
                1i8
            } else {
                -1i8
            })
            &&& final(rng).0 == s2
        }),
{
    let x = random_sign(rng).to_i8();
    let y = random_sign(rng).to_i8();
    Vec2 { x, y }
}

/// A random unit step along one axis.
pub fn random_cardinal_dir(rng: &mut Rng) -> (r: DPos)
    ensures
        (r, final(rng).0) == (cardinal_of_byte(draw_byte(old(rng).0).0), draw_byte(old(rng).0).1),
{
    let b = rng.next() % 4;
    if b == 0 {
        DPos::new(1, 0)
    } else if b == 1 {
        DPos::new(0, 1)
    } else if b == 2 {
        DPos::new(-1, 0)
    } else {
        DPos::new(0, -1)
    }
}

/// A random position where a box of side `width` stands on `target_tile` at
/// two opposite corners, or `None` when `MAX_PLACEMENT_TRIES` draws find none.
pub fn random_pos_on_tile(rng: &mut Rng, tiles: &[Tile], target_tile: Tile, width: u8) -> (r:
    Option<Pos>)
    ensures
        (r, final(rng).0) == placement(
            tiles@,
            target_tile,
            width,
            old(rng).0,
            MAX_PLACEMENT_TRIES as nat,
        ),
{
    let mut k: u16 = 0;
    while k < MAX_PLACEMENT_TRIES
        invariant
            k <= MAX_PLACEMENT_TRIES,
            placement(tiles@, target_tile, width, old(rng).0, MAX_PLACEMENT_TRIES as nat)
                == placement(tiles@, target_tile, width, rng.0, (MAX_PLACEMENT_TRIES - k) as nat),
        decreases MAX_PLACEMENT_TRIES - k,
    {
        let pos = random_pos(rng);
        if get_tile_at(tiles, &pos) == target_tile && get_tile_at(
            tiles,
            &pos.shifted(&DPos::new(width as i8, width as i8)),
        ) == target_tile {
            return Some(pos);
        }
        k = k + 1;
    }
    None
}

/// Agents a game holds at most.
pub const MAX_MEANIES: usize = 6;

/// Agents a new game starts with.
pub const N_MEANIES: usize = 4;

/// A new agent on a free spot with a random heading and sense, and the
/// generator state after it; `None` where no free spot was found.
pub open spec fn make_meanie_spec(tiles: Seq<Tile>, seed: u16) -> (Option<Meanie>, u16) {
    let (p, s1) = placement(
        tiles,
        Tile::Nothing,
        PLAYER_WIDTH,
        next_seed_spec(seed),
        MAX_PLACEMENT_TRIES as nat,
    );
    match p {
        None => (None, s1),
        Some(pos) => {
            let (b1, s2) = draw_byte(s1);
            let (b2, s3) = draw_byte(s2);
            (
                Some(
                    Meanie {
                        pos,
                        vel: cardinal_of_byte(b1),
                        orientation: orientation_of(b2),
                        n_turns: 0,
                    },
                ),
                s3,
            )
        },
    }
}

/// The agents of `k` spawn attempts in turn, and the generator state after.
pub open spec fn spawn(tiles: Seq<Tile>, seed: u16, k: nat) -> (Seq<Meanie>, u16)
    decreases k,
{
    if k == 0 {
        (Seq::empty(), seed)
    } else {
        let (ms, s) = spawn(tiles, seed, (k - 1) as nat);
        let (m, s2) = make_meanie_spec(tiles, s);
        (
            match m {
                Some(mm) => ms.push(mm),
                None => ms,
            },
            s2,
        )
    }
}

/// Whether each of `k` spawn attempts in turn placed its agent.
pub open spec fn spawn_placed(tiles: Seq<Tile>, seed: u16, k: nat) -> bool
    decreases k,
{
    if k == 0 {
        true
    } else {
        spawn_placed(tiles, seed, (k - 1) as nat) && make_meanie_spec(
            tiles,
            spawn(tiles, seed, (k - 1) as nat).1,
        ).0 is Some
    }
}

/// `k` spawn attempts give at most `k` agents, and exactly `k` when every
/// attempt found a free spot within its draws.
pub proof fn lemma_spawn_count(tiles: Seq<Tile>, seed: u16, k: nat)
    ensures
        spawn(tiles, seed, k).0.len() <= k,
        spawn(tiles, seed, k).0.len() == k <==> spawn_placed(tiles, seed, k),
    decreases k,
{
    if k > 0 {
        lemma_spawn_count(tiles, seed, (k - 1) as nat);
    }
}

/// The level a game plays on: generated from the first `GRID_SIZE` states
/// from `INIT_SEED`.
pub open spec fn game_level() -> Seq<Tile> {
    Seq::new(GRID_SIZE as nat, |i: int| level_tile(Seq::new(GRID_SIZE as nat, |j: int| seed_after(INIT_SEED, j as nat)), i))
}

/// Display address of the playfield's first tile.
pub const ORIGIN: u16 = 0x2020;

/// Sprite tile of the player, and of a collected coin's cell.
pub const HEART_SPRITE: u8 = 0x63;

/// Sprite tile of an agent.
pub const AT_SPRITE: u8 = 0x5f;

/// Sprite tile of a dead player: `x` in the tile set's character range.
pub const DEAD_SPRITE: u8 = 0x58;

/// The tiles of the text ` IS DEAD`.
pub open spec fn death_tiles() -> Seq<u8> {
    seq![0u8, 41u8, 51u8, 0u8, 36u8, 37u8, 33u8, 36u8]
}

/// Why a frame could not be drawn in full; either is fatal to the game loop.
#[derive(Copy, Clone, PartialEq, Eq, Structural, Debug)]
pub enum FrameError {
    /// The render queue had no room for a segment.
    QueueFull,
    /// The sprite table had no free slot.
    SpritesFull,
}

/// Whether a segment of `tiles` fits after `runs` in `cap` bytes.
pub open spec fn fits(runs: Seq<(u16, Seq<u8>)>, tiles: Seq<u8>, cap: int) -> bool {
    encode(runs).len() + 3 + tiles.len() <= cap
}

/// `runs` with segment `(addr, tiles)` queued where it is valid and fits in
/// `cap` bytes.
pub open spec fn queue(runs: Seq<(u16, Seq<u8>)>, addr: u16, tiles: Seq<u8>, cap: int) -> Seq<
    (u16, Seq<u8>),
> {
    if 1 <= tiles.len() <= 255 && encode(runs).len() + 3 + tiles.len() <= cap {
        runs.push((addr, tiles))
    } else {
        runs
    }
}

/// The index of the coin under the player's centre at `p`, if there is one.
pub open spec fn coin_under(tiles: Seq<Tile>, p: Pos) -> Option<u16> {
    let c = shifted_spec(p, Vec2 { x: 4i8, y: 4i8 });
    if tile_at(tiles, c) == Tile::Coin {
        Some(tile_index(c) as u16)
    } else {
        None
    }
}

/// The agents after one frame each, first to last, sharing one generator.
pub open spec fn meanies_after(tiles: Seq<Tile>, ms: Seq<Meanie>, seed: u16) -> (Seq<Meanie>, u16)
    decreases ms.len(),
{
    if ms.len() == 0 {
        (Seq::empty(), seed)
    } else {
        let (front, s) = meanies_after(tiles, ms.drop_last(), seed);
        let (m, s2) = meanie_after(tiles, ms.last(), s);
        (front.push(m), s2)
    }
}

/// Whether an agent is close enough to the player at `p` to kill it.
pub open spec fn touches(p: Pos, m: Meanie) -> bool {
    l1_spec(p, m.pos) < PLAYER_WIDTH
}

/// Whether some agent of `ms` touches the player at `p`.
pub open spec fn any_touches(p: Pos, ms: Seq<Meanie>) -> bool {
    exists|k: int| 0 <= k < ms.len() && touches(p, #[trigger] ms[k])
}

/// A new agent on a free spot of the level, heading along a random axis.
pub fn make_meanie(rng: &mut Rng, tiles: &[Tile]) -> (r: Option<Meanie>)
    ensures
        (r, final(rng).0) == make_meanie_spec(tiles@, old(rng).0),
{
    rng.cycle();
    let pos = random_pos_on_tile(rng, tiles, Tile::Nothing, PLAYER_WIDTH);
    match pos {
        None => None,
        Some(pos) => {
            let vel = random_cardinal_dir(rng);
            let orientation = random_orientation(rng);
            Some(Meanie { pos, vel, orientation, n_turns: 0 })
        },
    }
}

/// The whole state of a game.
pub struct Game {
    rng: Rng,
    player: Player,
    tiles: Vec<Tile>,
    grabbed_coin_index: Option<u16>,
    n_coins: u16,
    meanies: CappedVec<Meanie, MAX_MEANIES>,
}

impl Game {
    /// The generator's state.
    pub closed spec fn seed(&self) -> u16 {
        self.rng.0
    }

    /// The player.
    pub closed spec fn player(&self) -> Player {
        self.player
    }

    /// The level's tiles; a collected coin becomes `Nothing`.
    pub closed spec fn tiles(&self) -> Seq<Tile> {
        self.tiles@
    }

    /// The index of the coin collected this frame, until it is drawn.
    pub closed spec fn grabbed(&self) -> Option<u16> {
        self.grabbed_coin_index
    }

    /// Coins left to collect.
    pub closed spec fn n_coins(&self) -> int {
        self.n_coins as int
    }

    /// The agents.
    pub closed spec fn meanies(&self) -> Seq<Meanie> {
        self.meanies@
    }

    /// The level has its full size, the coin count matches it, and every
    /// agent's turn count is within the limit.
    pub closed spec fn wf(&self) -> bool {
        &&& self.tiles@.len() == GRID_SIZE
        &&& self.n_coins == coin_count(self.tiles@)
        &&& self.meanies.wf()
        &&& forall|k: int| 0 <= k < self.meanies@.len() ==> #[trigger] self.meanies@[k].n_turns <= TURN_LIMIT
    }

    /// The player.
    pub fn player_state(&self) -> (r: Player)
        ensures
            r == self.player(),
    {
        self.player
    }

    /// Coins left to collect.
    pub fn coins_left(&self) -> (r: u16)
        ensures
            r == self.n_coins(),
    {
        self.n_coins
    }

    /// The level's tiles.
    pub fn tile_grid(&self) -> (r: &[Tile])
        ensures
            r@ == self.tiles(),
    {
        self.tiles.as_slice()
    }

    /// The agents.
    pub fn agents(&self) -> (r: &[Meanie])
        ensures
            r@ == self.meanies(),
    {
        self.meanies.iter()
    }

    /// The index of the coin collected since the last draw.
    pub fn grabbed_index(&self) -> (r: Option<u16>)
        ensures
            r == self.grabbed(),
    {
        self.grabbed_coin_index
    }

    /// Sets up a game in `some_game`: the level from `INIT_SEED`, its coin
    /// count, the player at the top left, and agents spawned on free spots by
    /// a generator that starts where the game's own does.
    pub fn new(some_game: &mut Option<Game>)
        ensures
            *final(some_game) is Some,
            ({
                let g = (*final(some_game))->Some_0;
                &&& g.wf()
                &&& g.tiles() == game_level()
                &&& g.n_coins() == coin_count(game_level())
                &&& g.player() == (Player { pos: Vec2 { x: 16, y: 0 }, dead: false })
                &&& g.grabbed() is None
                &&& g.seed() == INIT_SEED
                &&& g.meanies() == spawn(game_level(), INIT_SEED, N_MEANIES as nat).0
                &&& g.meanies().len() <= N_MEANIES
                &&& g.meanies().len() == N_MEANIES <==> spawn_placed(
                    game_level(),
                    INIT_SEED,
                    N_MEANIES as nat,
                )
            }),
    {
        let mut rng = Rng::new(None);
        let game_rng = Rng(rng.0);
        let seeds = get_seeds(GRID_SIZE as usize);
        let tiles = make_level(&seeds);
        proof {
            assert(seeds@ =~= Seq::new(GRID_SIZE as nat, |j: int| seed_after(INIT_SEED, j as nat)));
            assert(tiles@ =~= game_level());
        }
        let n = count_coins(tiles.as_slice());
        proof {
            lemma_coin_count_bound(tiles@);
        }
        let mut meanies: CappedVec<Meanie, MAX_MEANIES> = CappedVec::new();
        let mut k: usize = 0;
        while k < N_MEANIES
            invariant
                k <= N_MEANIES,
                tiles@ == game_level(),
                meanies.wf(),
                meanies@.len() <= k,
                (meanies@, rng.0) == spawn(game_level(), INIT_SEED, k as nat),
                forall|j: int| 0 <= j < meanies@.len() ==> #[trigger] meanies@[j].n_turns == 0,
            decreases N_MEANIES - k,
        {
            let m = make_meanie(&mut rng, tiles.as_slice());
            match m {
                Some(mm) => {
                    meanies.push(mm);
                },
                None => {},
            }
            k = k + 1;
        }
        proof {
            lemma_spawn_count(game_level(), INIT_SEED, N_MEANIES as nat);
        }
        *some_game = Some(
            Game {
                rng: game_rng,
                player: Player { pos: Vec2 { x: 16, y: 0 }, dead: false },
                tiles,
                grabbed_coin_index: None,
                n_coins: n as u16,
                meanies,
            },
        );
    }
}

/// One frame of game `g0` into `g1`: the player moves, takes the coin under
/// its centre, then each agent moves and kills the player on contact. The
/// cue and the queued segments change as `apu0`/`runs0` to `apu1`/`runs1`.
pub open spec fn step_rel(
    g0: Game,
    g1: Game,
    buttons: u8,
    apu0: APU,
    apu1: APU,
    runs0: Seq<(u16, Seq<u8>)>,
    runs1: Seq<(u16, Seq<u8>)>,
    cap: int,
    r: Result<(), FrameError>,
) -> bool {
    let player0 = g0.player();
    let t0 = g0.tiles();
    let pos1 = if player0.dead {
        player0.pos
    } else {
        shifted_spec(player0.pos, player_step(t0, buttons, player0.pos))
    };
    let grab = coin_under(t0, pos1);
    let t1 = match grab {
        Some(i) => t0.update(i as int, Tile::Nothing),
        None => t0,
    };
    let (ms, s) = meanies_after(t1, g0.meanies(), g0.seed());
    let died = !player0.dead && any_touches(pos1, ms);
    &&& g1.wf()
    &&& g1.tiles() == t1
    &&& g1.n_coins() == coin_count(t1)
    &&& g1.grabbed() == (if grab is Some {
        grab
    } else {
        g0.grabbed()
    })
    &&& g1.meanies() == ms
    &&& g1.seed() == s
    &&& g1.player() == (Player { pos: pos1, dead: player0.dead || died })
    &&& died ==> apu1.cue() == Sfx::Topout && apu1.frame() == 0
    &&& !died && grab is Some ==> apu1.cue() == Sfx::LevelUp && apu1.frame() == 0
    &&& !died && grab is None && !player0.dead && player_blocked(t0, buttons, player0.pos)
        && !apu0.is_playing_spec() ==> apu1.cue() == Sfx::Lock && apu1.frame() == 0
    &&& !died && grab is None && (player0.dead || !player_blocked(t0, buttons, player0.pos)
        || apu0.is_playing_spec()) ==> apu1 == apu0
    &&& runs1 == if died {
        queue(runs0, (ORIGIN + 15) as u16, death_tiles(), cap)
    } else {
        runs0
    }
    &&& r == if died && !fits(runs0, death_tiles(), cap) {
        Err::<(), FrameError>(FrameError::QueueFull)
    } else {
        Ok(())
    }
}

/// The tiles of the last three decimal digits of `x`, most significant first.
pub open spec fn digit_tiles(x: u16) -> Seq<u8> {
    seq![(16 + x / 100 % 10) as u8, (16 + x / 10 % 10) as u8, (16 + x % 10) as u8]
}

/// `bytes` with a record for each agent of `ms` from slot `start` on.
pub open spec fn meanie_records(bytes: Seq<u8>, start: int, ms: Seq<Meanie>) -> Seq<u8>
    decreases ms.len(),
{
    if ms.len() == 0 {
        bytes
    } else {
        let m = ms.last();
        with_record(
            meanie_records(bytes, start, ms.drop_last()),
            start + ms.len() - 1,
            m.pos.x,
            m.pos.y,
            AT_SPRITE,
            0,
        )
    }
}

/// Drawing game `g0` into `g1`: the coin count after the title, the cell of
/// a coin collected since the last draw, and a sprite for the player and
/// for each agent; `r` fails when the queue or the sprite table is full.
pub open spec fn draw_rel(
    g0: Game,
    g1: Game,
    spr0: SpriteState,
    spr1: SpriteState,
    runs0: Seq<(u16, Seq<u8>)>,
    runs1: Seq<(u16, Seq<u8>)>,
    cap: int,
    r: Result<(), FrameError>,
) -> bool {
    let digits_fit = fits(runs0, digit_tiles(g0.n_coins() as u16), cap);
    let r1 = queue(runs0, ORIGIN, digit_tiles(g0.n_coins() as u16), cap);
    let coin_fits = match g0.grabbed() {
        Some(_) => fits(r1, seq![HEART_SPRITE], cap),
        None => true,
    };
    let ptile = if g0.player().dead {
        DEAD_SPRITE
    } else {
        HEART_SPRITE
    };
    let ms = g0.meanies();
    let room = spr0.count() + 1 + ms.len() <= SPRITE_CAPACITY;
    &&& r == if !digits_fit || !coin_fits {
        Err::<(), FrameError>(FrameError::QueueFull)
    } else if !room {
        Err::<(), FrameError>(FrameError::SpritesFull)
    } else {
        Ok(())
    }
    &&& g1.wf()
    &&& g1.tiles() == g0.tiles()
    &&& g1.n_coins() == g0.n_coins()
    &&& g1.meanies() == ms
    &&& g1.seed() == g0.seed()
    &&& g1.player() == g0.player()
    &&& g1.grabbed() is None
    &&& runs1 == match g0.grabbed() {
        Some(i) => queue(r1, ((ORIGIN + i) % 65536) as u16, seq![HEART_SPRITE], cap),
        None => r1,
    }
    &&& spr1.wf()
    &&& room ==> spr1.count() == spr0.count() + 1
        + ms.len() && spr1.bytes() == meanie_records(
        with_record(spr0.bytes(), spr0.count(), g0.player().pos.x, g0.player().pos.y, ptile, 0),
        spr0.count() + 1,
        ms,
    )
}

/// Queues the last three decimal digits of `x` from `addr` on.
pub fn draw_digits<const N: usize>(addr: Addr, x: u16, buffer: &mut Buffer<N>) -> (r: Result<
    (),
    BufferError,
>)
    requires
        old(buffer).wf(),
    ensures
        final(buffer).wf(),
        final(buffer).runs() == queue(old(buffer).runs(), addr.0, digit_tiles(x), N as int),
        r == if fits(old(buffer).runs(), digit_tiles(x), N as int) {
            Ok(())
        } else {
            Err::<(), BufferError>(BufferError::Full)
        },
{
    let digits: [u8; 3] = [
        digit_to_ascii(((x / 100) % 10) as u8) - 32,
        digit_to_ascii(((x / 10) % 10) as u8) - 32,
        digit_to_ascii((x % 10) as u8) - 32,
    ];
    assert(digits@ =~= digit_tiles(x));
    if buffer.tiles(addr, digits.as_slice()).is_ok() {
        Ok(())
    } else {
        Err(BufferError::Full)
    }
}

/// Plays the death cue and queues the text ` IS DEAD` after the score.
pub fn on_player_death<const N: usize>(apu: &mut APU, buffer: &mut Buffer<N>) -> (r: Result<
    (),
    BufferError,
>)
    requires
        old(buffer).wf(),
    ensures
        final(apu).cue() == Sfx::Topout,
        final(apu).frame() == 0,
        final(buffer).wf(),
        final(buffer).runs() == queue(old(buffer).runs(), (ORIGIN + 15) as u16, death_tiles(), N as int),
        r == if fits(old(buffer).runs(), death_tiles(), N as int) {
            Ok(())
        } else {
            Err::<(), BufferError>(BufferError::Full)
        },
{
    apu.play_sfx(Sfx::Topout);
    proof {
        reveal_strlit(" IS DEAD");
        let text = " IS DEAD";
        assert(vstd::string::is_ascii(text));
        vstd::string::is_ascii_spec_bytes(text);
        let b = text.spec_bytes();
        assert(b =~= seq![32u8, 73u8, 83u8, 32u8, 68u8, 69u8, 65u8, 68u8]);
        assert(crate::ppu_buffer::text_tiles(b) =~= death_tiles());
    }
    if buffer.draw_text(Addr(ORIGIN + 15), " IS DEAD").is_ok() {
        Ok(())
    } else {
        Err(BufferError::Full)
    }
}

impl Game {
    /// Advances the game by one frame with the buttons held in `buttons`.
    pub fn step<const N: usize>(&mut self, buttons: u8, apu: &mut APU, buffer: &mut Buffer<N>) -> (r:
        Result<(), FrameError>)
        requires
            old(self).wf(),
            old(buffer).wf(),
        ensures
            final(buffer).wf(),
            step_rel(
                *old(self),
                *final(self),
                buttons,
                *old(apu),
                *final(apu),
                old(buffer).runs(),
                final(buffer).runs(),
                N as int,
                r,
            ),
    {
        let mut result: Result<(), FrameError> = Ok(());
        let ghost g0 = *self;
        let ghost apu0 = *apu;
        update_player(&mut self.player, self.tiles.as_slice(), buttons, apu);
        let ghost apu_p = *apu;
        let center = self.player.pos.shifted(&DPos::new(4, 4));
        if get_tile_at(self.tiles.as_slice(), &center) == Tile::Coin {
            if let Some(index) = map_pos_to_tile_index(&center) {
                proof {
                    lemma_coin_count_take(self.tiles@, index as int);
                }
                self.tiles.set(index as usize, Tile::Nothing);
                self.grabbed_coin_index = Some(index);
                self.n_coins = self.n_coins - 1;
                apu.play_sfx(Sfx::LevelUp);
            }
        }
        let ghost t1 = self.tiles@;
        let ghost apu_c = *apu;
        let ghost player1 = self.player;
        let n = self.meanies.len();
        let ghost ms0 = self.meanies@;
        let ghost s0 = self.rng.0;
        let ghost runs0 = buffer.runs();
        let mut k: usize = 0;
        assert(ms0.subrange(0, 0) =~= Seq::<Meanie>::empty());
        while k < n
            invariant
                k <= n,
                n == ms0.len(),
                self.meanies.wf(),
                self.meanies@.len() == n,
                self.tiles@ == t1,
                self.tiles@.len() == GRID_SIZE,
                self.n_coins == coin_count(t1),
                self.grabbed_coin_index == (if coin_under(g0.tiles(), player1.pos) is Some {
                    coin_under(g0.tiles(), player1.pos)
                } else {
                    g0.grabbed()
                }),
                self.player.pos == player1.pos,
                buffer.wf(),
                forall|j: int| 0 <= j < n ==> #[trigger] ms0[j].n_turns <= TURN_LIMIT,
                forall|j: int| 0 <= j < n ==> #[trigger] self.meanies@[j].n_turns <= TURN_LIMIT,
                forall|j: int| k <= j < n ==> #[trigger] self.meanies@[j] == ms0[j],
                (self.meanies@.subrange(0, k as int), self.rng.0) == meanies_after(
                    t1,
                    ms0.subrange(0, k as int),
                    s0,
                ),
                self.player.dead == (player1.dead || any_touches(
                    player1.pos,
                    self.meanies@.subrange(0, k as int),
                )),
                !player1.dead && any_touches(player1.pos, self.meanies@.subrange(0, k as int)) ==> apu.cue()
                    == Sfx::Topout && apu.frame() == 0 && buffer.runs() == queue(
                    runs0,
                    (ORIGIN + 15) as u16,
                    death_tiles(),
                    N as int,
                ),
                !(!player1.dead && any_touches(player1.pos, self.meanies@.subrange(0, k as int))) ==> *apu
                    == apu_c && buffer.runs() == runs0,
                result == if !player1.dead && any_touches(
                    player1.pos,
                    self.meanies@.subrange(0, k as int),
                ) && !fits(runs0, death_tiles(), N as int) {
                    Err::<(), FrameError>(FrameError::QueueFull)
                } else {
                    Ok(())
                },
            decreases n - k,
        {
            let mut m = *self.meanies.read(k);
            update_meanie(self.tiles.as_slice(), &mut m, &mut self.rng);
            let ghost before = self.meanies@;
            self.meanies.write(k, m);
            proof {
                let pre = ms0.subrange(0, k as int + 1);
                assert(pre.drop_last() =~= ms0.subrange(0, k as int));
                assert(pre.last() == ms0[k as int]);
                assert(self.meanies@.subrange(0, k as int + 1) =~= before.subrange(
                    0,
                    k as int,
                ).push(m));
                let now = self.meanies@.subrange(0, k as int + 1);
                let was = before.subrange(0, k as int);
                assert(any_touches(player1.pos, now) == (any_touches(player1.pos, was) || touches(player1.pos, m)))
                    by {
                    if any_touches(player1.pos, was) {
                        let j = choose|j: int| 0 <= j < was.len() && touches(player1.pos, #[trigger] was[j]);
                        assert(now[j] == was[j]);
                    }
                    if touches(player1.pos, m) {
                        assert(now[k as int] == m);
                    }
                    if any_touches(player1.pos, now) {
                        let j = choose|j: int| 0 <= j < now.len() && touches(player1.pos, #[trigger] now[j]);
                        if j < k {
                            assert(was[j] == now[j]);
                        }
                    }
                }
            }
            if !self.player.dead && self.player.pos.l1_dist(&m.pos) < PLAYER_WIDTH {
                if on_player_death(apu, buffer).is_err() {
                    result = Err(FrameError::QueueFull);
                }
                self.player.dead = true;
            }
            k = k + 1;
        }
        proof {
            assert(ms0.subrange(0, n as int) =~= ms0);
            assert(self.meanies@.subrange(0, n as int) =~= self.meanies@);
        }
        result
    }

    /// Queues the score and any collected coin's cell, and stages a sprite
    /// for the player and each agent.
    pub fn draw<const N: usize>(&mut self, sprites: &mut SpriteState, buffer: &mut Buffer<N>) -> (r:
        Result<(), FrameError>)
        requires
            old(self).wf(),
            old(buffer).wf(),
            old(sprites).wf(),
        ensures
            final(buffer).wf(),
            draw_rel(
                *old(self),
                *final(self),
                *old(sprites),
                *final(sprites),
                old(buffer).runs(),
                final(buffer).runs(),
                N as int,
                r,
            ),
    {
        let mut queue_full = draw_digits(Addr(ORIGIN), self.n_coins, buffer).is_err();
        match self.grabbed_coin_index {
            Some(index) => {
                if buffer.tile(Addr(ORIGIN.wrapping_add(index)), HEART_SPRITE).is_err() {
                    queue_full = true;
                }
                self.grabbed_coin_index = None;
            },
            None => {},
        }
        let ptile = if self.player.dead {
            DEAD_SPRITE
        } else {
            HEART_SPRITE
        };
        let ghost spr0 = *sprites;
        let ghost room = spr0.count() + 1 + self.meanies@.len() <= SPRITE_CAPACITY;
        proof {
            spr0.lemma_wf_bounds();
        }
        let mut sprites_full = sprites.add_at_pos(&self.player.pos, ptile, 0).is_err();
        let ghost bytes1 = sprites.bytes();
        let n = self.meanies.len();
        let mut k: usize = 0;
        assert(self.meanies@.subrange(0, 0) =~= Seq::<Meanie>::empty());
        while k < n
            invariant
                k <= n,
                n == self.meanies@.len(),
                self.meanies.wf(),
                self.meanies@ == old(self).meanies@,
                self.player == old(self).player,
                room == (spr0.count() + 1 + n <= SPRITE_CAPACITY),
                sprites.wf(),
                0 <= spr0.count() <= SPRITE_CAPACITY,
                sprites.count() == if spr0.count() + 1 + k <= SPRITE_CAPACITY {
                    spr0.count() + 1 + k
                } else {
                    SPRITE_CAPACITY as int
                },
                sprites_full == (spr0.count() + 1 + k > SPRITE_CAPACITY),
                room ==> bytes1 == with_record(
                    spr0.bytes(),
                    spr0.count(),
                    self.player.pos.x,
                    self.player.pos.y,
                    ptile,
                    0,
                ),
                room ==> sprites.bytes() == meanie_records(
                    bytes1,
                    spr0.count() + 1,
                    self.meanies@.subrange(0, k as int),
                ),
            decreases n - k,
        {
            let m = self.meanies.read(k);
            if sprites.add_at_pos(&m.pos, AT_SPRITE, 0).is_err() {
                sprites_full = true;
            }
            proof {
                let pre = self.meanies@.subrange(0, k as int + 1);
                assert(pre.drop_last() =~= self.meanies@.subrange(0, k as int));
                assert(pre.last() == self.meanies@[k as int]);
            }
            k = k + 1;
        }
        assert(self.meanies@.subrange(0, n as int) =~= self.meanies@);
        if queue_full {
            Err(FrameError::QueueFull)
        } else if sprites_full {
            Err(FrameError::SpritesFull)
        } else {
            Ok(())
        }
    }
}

/// One frame of the game loop: clears the render queue, advances the game,
/// and draws it. A failure of either part is reported, the step's first.
pub fn frame<const N: usize>(
    game: &mut Game,
    buttons: u8,
    apu: &mut APU,
    sprites: &mut SpriteState,
    buffer: &mut Buffer<N>,
) -> (r: Result<(), FrameError>)
    requires
        old(game).wf(),
        old(buffer).wf(),
        old(sprites).wf(),
    ensures
        final(buffer).wf(),
        exists|
            g1: Game,
            runs1: Seq<(u16, Seq<u8>)>,
            r1: Result<(), FrameError>,
            r2: Result<(), FrameError>,
        |
            #[trigger] step_rel(
                *old(game),
                g1,
                buttons,
                *old(apu),
                *final(apu),
                Seq::empty(),
                runs1,
                N as int,
                r1,
            ) && #[trigger] draw_rel(
                g1,
                *final(game),
                *old(sprites),
                *final(sprites),
                runs1,
                final(buffer).runs(),
                N as int,
                r2,
            ) && r == (if r1 is Err {
                r1
            } else {
                r2
            }),
{
    buffer.clear();
    let r1 = game.step(buttons, apu, buffer);
    let ghost g1 = *game;
    let ghost runs1 = buffer.runs();
    let ghost apu1 = *apu;
    let r2 = game.draw(sprites, buffer);
    assert(step_rel(*old(game), g1, buttons, *old(apu), apu1, Seq::empty(), runs1, N as int, r1));
    assert(draw_rel(g1, *game, *old(sprites), *sprites, runs1, buffer.runs(), N as int, r2));
    if r1.is_err() {
        r1
    } else {
        r2
    }
}

} // verus!
