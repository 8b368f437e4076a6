//! The tile grid: generation from the random sequence, and lookup by position.
use vstd::prelude::*;
use crate::rng::{seed_to_rng, seed_to_rng_spec};
use crate::ppu_buffer::PpuWrite;
use crate::vec2::Pos;

verus! {

/// Tiles in one row: the display's horizontal tile count.
pub const ROW: u8 = 0x20;

/// Rows in a full-screen level.
pub const N_ROWS: u8 = 28;

/// Tiles in a full-screen level.
pub const GRID_SIZE: u16 = 896;

/// One cell of the playfield.
#[derive(Copy, Clone, PartialEq, Eq, Structural, Debug)]
pub enum Tile {
    Nothing,
    Wall,
    Coin,
}

/// The tile that a register state yields before the border is drawn.
pub open spec fn seed_tile(seed: u16) -> Tile {
    let v = seed_to_rng_spec(seed);
    if v % 4 == 0 {
        Tile::Wall
    } else if v % 41 == 1 {
        Tile::Coin
    } else {
        Tile::Nothing
    }
}

/// Whether index `i` of a grid of `len` tiles lies on its perimeter: the
/// first or last row, or the first or last column of a row.
pub open spec fn on_border(i: int, len: int) -> bool {
    i < ROW || i >= len - ROW || i % (ROW as int) == 0 || i % (ROW as int) == ROW - 1
}

/// Tile `i` of the level generated from `seeds`.
pub open spec fn level_tile(seeds: Seq<u16>, i: int) -> Tile {
    if on_border(i, seeds.len() as int) {
        Tile::Wall
    } else {
        seed_tile(seeds[i])
    }
}

/// The grid index of the tile under a position: eight pixels to a tile, the
/// playfield one row below the top. Negative above the playfield.
pub open spec fn tile_index(p: Pos) -> int {
    p.x as int / 8 + (p.y as int + 1) / 8 * 32 - 32
}

/// The tile under a position, or `Wall` where the index is out of the grid.
pub open spec fn tile_at(tiles: Seq<Tile>, p: Pos) -> Tile {
    let i = tile_index(p);
    if 0 <= i < tiles.len() {
        tiles[i]
    } else {
        Tile::Wall
    }
}

/// How many tiles of `tiles` are `Coin`.
pub open spec fn coin_count(tiles: Seq<Tile>) -> nat
    decreases tiles.len(),
{
    if tiles.len() == 0 {
        0
    } else {
        coin_count(tiles.drop_last()) + if tiles.last() == Tile::Coin {
            1nat
        } else {
            0nat
        }
    }
}

/// The tile that a register state yields before the border is drawn.
pub fn seed_to_tile(seed: u16) -> (r: Tile)
    ensures
        r == seed_tile(seed),
{
    let rng_val = seed_to_rng(seed);
    if rng_val % 4 == 0 {
        Tile::Wall
    } else if rng_val % 41 == 1 {
        Tile::Coin
    } else {
        Tile::Nothing
    }
}

/// Display address of the playfield's first tile.
pub const LEVEL_ORIGIN: u16 = 0x2020;

/// Sprite tile of a wall.
pub const WALL_SPRITE: u8 = 0x60;

/// Sprite tile of a coin.
pub const COIN_SPRITE: u8 = 0x6a;

/// The display tile of a level tile.
pub open spec fn tile_sprite(t: Tile) -> u8 {
    match t {
        Tile::Nothing => 0,
        Tile::Wall => WALL_SPRITE,
        Tile::Coin => COIN_SPRITE,
    }
}

/// The display writes that draw tile `i` of a level: its address, then its
/// display tile.
pub open spec fn tile_writes(i: int, t: Tile) -> Seq<PpuWrite> {
    let a = (LEVEL_ORIGIN + i) % 65536;
    seq![
        PpuWrite::AddrByte((a / 256) as u8),
        PpuWrite::AddrByte((a % 256) as u8),
        PpuWrite::Data(tile_sprite(t)),
    ]
}

/// The display writes that draw a whole level, tile by tile.
pub fn draw_level(tiles: &[Tile]) -> (r: Vec<PpuWrite>)
    ensures
        r@.len() == 3 * tiles@.len(),
        forall|i: int|
            0 <= i < tiles@.len() ==> r@.subrange(3 * i, 3 * i + 3) == tile_writes(i, tiles@[i]),
{
    let mut out: Vec<PpuWrite> = Vec::new();
    let mut i: usize = 0;
    while i < tiles.len()
        invariant
            i <= tiles@.len(),
            out@.len() == 3 * i,
            forall|j: int|
                0 <= j < i ==> out@.subrange(3 * j, 3 * j + 3) == tile_writes(j, tiles@[j]),
        decreases tiles@.len() - i,
    {
        let a = LEVEL_ORIGIN.wrapping_add((i % 65536) as u16);
        let sprite = match tiles[i] {
            Tile::Nothing => 0,
            Tile::Wall => WALL_SPRITE,
            Tile::Coin => COIN_SPRITE,
        };
        let ghost before = out@;
        out.push(PpuWrite::AddrByte((a / 256) as u8));
        out.push(PpuWrite::AddrByte((a % 256) as u8));
        out.push(PpuWrite::Data(sprite));
        proof {
            assert(a as int == (LEVEL_ORIGIN + i as int) % 65536) by {
                let q = i as int / 65536;
                let m = i as int % 65536;
                assert(i as int == q * 65536 + m);
                assert((LEVEL_ORIGIN + m) % 65536 == (LEVEL_ORIGIN + m + q * 65536) % 65536) by (nonlinear_arith)
                    requires q >= 0, m >= 0;
            }
            assert forall|j: int| 0 <= j < i + 1 implies out@.subrange(3 * j, 3 * j + 3)
                == tile_writes(j, tiles@[j]) by {
                if j < i {
                    assert(out@.subrange(3 * j, 3 * j + 3) =~= before.subrange(3 * j, 3 * j + 3));
                } else {
                    assert(out@.subrange(3 * j, 3 * j + 3) =~= tile_writes(j, tiles@[j]));
                }
            }
        }
        i = i + 1;
    }
    out
}

/// Generates a level, one tile per seed in rows of `ROW`, and closes its
/// perimeter with walls.
pub fn make_level(seeds: &Vec<u16>) -> (r: Vec<Tile>)
    requires
        seeds@.len() >= ROW,
        (seeds@.len() as int) % (ROW as int) == 0,
    ensures
        r@.len() == seeds@.len(),
        forall|i: int| 0 <= i < r@.len() ==> r@[i] == level_tile(seeds@, i),
{
    let n = seeds.len();
    let row = ROW as usize;
    let mut tiles: Vec<Tile> = Vec::with_capacity(n);
    let mut i: usize = 0;
    while i < n
        invariant
            n == seeds@.len(),
            row == ROW,
            i <= n,
            n >= row,
            tiles@.len() == i,
            forall|j: int| 0 <= j < i ==> tiles@[j] == level_tile(seeds@, j),
        decreases n - i,
    {
        let col = i % row;
        let t = if i < row || i >= n - row || col == 0 || col == row - 1 {
            Tile::Wall
        } else {
            seed_to_tile(seeds[i])
        };
        tiles.push(t);
        i = i + 1;
    }
    tiles
}

/// The grid index of the tile under `pos`, or `None` above the playfield.
pub fn map_pos_to_tile_index(pos: &Pos) -> (r: Option<u16>)
    ensures
        tile_index(*pos) < 0 ==> r is None,
        tile_index(*pos) >= 0 ==> r == Some(tile_index(*pos) as u16),
        r matches Some(i) ==> i < 1024,
{
    let x_tile: u16 = (pos.x as u16) / 8;
    let y_tile: u16 = (pos.y as u16 + 1) / 8;
    assert(x_tile < 32 && y_tile <= 32);
    if y_tile == 0 {
        None
    } else {
        assert((y_tile - 1) * 32 <= 992) by (nonlinear_arith)
            requires
                1 <= y_tile <= 32,
        ;
        Some(x_tile + (y_tile - 1) * 32)
    }
}

/// The tile under `pos`; `Wall` where that index is out of the grid.
pub fn get_tile_at(tiles: &[Tile], pos: &Pos) -> (r: Tile)
    ensures
        r == tile_at(tiles@, *pos),
{
    match map_pos_to_tile_index(pos) {
        Some(index) => if (index as usize) < tiles.len() {
            tiles[index as usize]
        } else {
            Tile::Wall
        },
        None => Tile::Wall,
    }
}

/// How many tiles are `Coin`.
pub fn count_coins(tiles: &[Tile]) -> (r: usize)
    ensures
        r == coin_count(tiles@),
{
    let mut c: usize = 0;
    let mut i: usize = 0;
    while i < tiles.len()
        invariant
            i <= tiles@.len(),
            c == coin_count(tiles@.subrange(0, i as int)),
            c <= i,
        decreases tiles@.len() - i,
    {
        assert(tiles@.subrange(0, i as int + 1).drop_last() =~= tiles@.subrange(0, i as int));
        if tiles[i] == Tile::Coin {
            c = c + 1;
        }
        i = i + 1;
    }
    assert(tiles@.subrange(0, tiles@.len() as int) =~= tiles@);
    c
}

/// Generation depends on the seeds alone: two grids that `make_level` can
/// return for the same seeds are equal.
pub proof fn lemma_level_deterministic(seeds: Seq<u16>, a: Seq<Tile>, b: Seq<Tile>)
    requires
        a.len() == seeds.len(),
        b.len() == seeds.len(),
        forall|i: int| 0 <= i < a.len() ==> a[i] == level_tile(seeds, i),
        forall|i: int| 0 <= i < b.len() ==> b[i] == level_tile(seeds, i),
    ensures
        a == b,
{
    assert(a =~= b);
}

/// There are no more coins than tiles.
pub proof fn lemma_coin_count_bound(tiles: Seq<Tile>)
    ensures
        coin_count(tiles) <= tiles.len(),
    decreases tiles.len(),
{
    if tiles.len() > 0 {
        lemma_coin_count_bound(tiles.drop_last());
    }
}

/// Taking the coin at `i` leaves one coin fewer.
pub proof fn lemma_coin_count_take(tiles: Seq<Tile>, i: int)
    requires
        0 <= i < tiles.len(),
        tiles[i] == Tile::Coin,
    ensures
        coin_count(tiles) >= 1,
        coin_count(tiles.update(i, Tile::Nothing)) == coin_count(tiles) - 1,
    decreases tiles.len(),
{
    let t2 = tiles.update(i, Tile::Nothing);
    if i == tiles.len() - 1 {
        assert(t2.drop_last() =~= tiles.drop_last());
    } else {
        assert(t2.drop_last() =~= tiles.drop_last().update(i, Tile::Nothing));
        lemma_coin_count_take(tiles.drop_last(), i);
    }
}

/// The perimeter of a generated level is wall, whatever the seeds: the first
/// and last row, and the first and last column of every row.
pub proof fn lemma_perimeter_is_wall(seeds: Seq<u16>, row: int, col: int)
    requires
        seeds.len() >= ROW,
        (seeds.len() as int) % (ROW as int) == 0,
        0 <= row < (seeds.len() as int) / (ROW as int),
        0 <= col < ROW,
        row == 0 || row == (seeds.len() as int) / (ROW as int) - 1 || col == 0 || col == ROW - 1,
    ensures
        level_tile(seeds, row * ROW + col) == Tile::Wall,
{
    let n = seeds.len() as int;
    let rows = n / 32;
    let i = row * 32 + col;
    assert(n == rows * 32) by (nonlinear_arith)
        requires
            n % 32 == 0,
            rows == n / 32,
    ;
    assert(i % 32 == col) by (nonlinear_arith)
        requires
            i == row * 32 + col,
            0 <= col < 32,
            0 <= row,
    ;
    if row == 0 {
        assert(i < 32);
    } else if row == rows - 1 {
        assert(i >= n - 32) by (nonlinear_arith)
            requires
                i == row * 32 + col,
                row == rows - 1,
                n == rows * 32,
                col >= 0,
        ;
    }
}

} // verus!
