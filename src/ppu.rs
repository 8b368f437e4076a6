//! Display write sequences made outside the render queue: palettes, a
//! blank nametable, and framed boxes.
use vstd::prelude::*;
use crate::ppu_buffer::{run_writes, PpuWrite};

verus! {

/// First tile of the box frame set: corners, then the vertical and the
/// horizontal edge.
pub const BOX_TILES: u8 = 0x73;

/// First nametable.
pub const NAMETABLE: u16 = 0x2000;

/// One display operation: a write, or a switch of the address step between
/// one tile (along a row) and one row (down a column).
#[derive(Copy, Clone, PartialEq, Eq, Structural, Debug)]
pub enum PpuOp {
    Write(PpuWrite),
    VerticalIncrement(bool),
}

/// The operations of a sequence of writes.
pub open spec fn as_ops(ws: Seq<PpuWrite>) -> Seq<PpuOp> {
    ws.map_values(|w: PpuWrite| PpuOp::Write(w))
}

/// `n` copies of tile `t`.
pub open spec fn repeat(t: u8, n: nat) -> Seq<u8> {
    Seq::new(n, |i: int| t)
}

/// The operations that frame a box of `w` by `h` tiles with its top left at
/// column `x`, row `y`: the top edge, the right edge and the left edge drawn
/// downwards, then the bottom edge.
pub open spec fn box_ops(x: u8, y: u8, w: u8, h: u8) -> Seq<PpuOp> {
    let off = NAMETABLE + x + y * 32;
    let side = repeat((BOX_TILES + 4) as u8, (h - 2) as nat);
    let across = repeat((BOX_TILES + 5) as u8, (w - 2) as nat);
    as_ops(run_writes(off as u16, seq![BOX_TILES].add(across).push((BOX_TILES + 1) as u8)))
        + as_ops(run_writes((off + 32) as u16, Seq::empty())).push(PpuOp::VerticalIncrement(true))
        + as_ops(side.push((BOX_TILES + 2) as u8).map_values(|t: u8| PpuWrite::Data(t)))
        + as_ops(run_writes((off + 32 + w - 1) as u16, side.push((BOX_TILES + 3) as u8))).push(
        PpuOp::VerticalIncrement(false),
    ) + as_ops(run_writes((off + (h - 1) * 32 + 1) as u16, across))
}

/// Appends the writes of `tiles` from `addr` on.
fn push_run(out: &mut Vec<PpuOp>, addr: u16, tiles: &[u8])
    ensures
        final(out)@ == old(out)@ + as_ops(run_writes(addr, tiles@)),
{
    let ghost start = out@;
    out.push(PpuOp::Write(PpuWrite::AddrByte((addr / 256) as u8)));
    out.push(PpuOp::Write(PpuWrite::AddrByte((addr % 256) as u8)));
    push_tiles(out, tiles);
    assert(out@ =~= start + as_ops(run_writes(addr, tiles@)));
}

/// Appends a tile write for each of `tiles`.
fn push_tiles(out: &mut Vec<PpuOp>, tiles: &[u8])
    ensures
        final(out)@ == old(out)@ + as_ops(tiles@.map_values(|t: u8| PpuWrite::Data(t))),
{
    let ghost start = out@;
    let mut i: usize = 0;
    while i < tiles.len()
        invariant
            i <= tiles@.len(),
            out@ == start + as_ops(tiles@.subrange(0, i as int).map_values(|t: u8| PpuWrite::Data(t))),
        decreases tiles@.len() - i,
    {
        out.push(PpuOp::Write(PpuWrite::Data(tiles[i])));
        assert(as_ops(tiles@.subrange(0, i as int + 1).map_values(|t: u8| PpuWrite::Data(t)))
            =~= as_ops(tiles@.subrange(0, i as int).map_values(|t: u8| PpuWrite::Data(t))).push(
            PpuOp::Write(PpuWrite::Data(tiles@[i as int])),
        ));
        i = i + 1;
    }
    assert(tiles@.subrange(0, tiles@.len() as int) =~= tiles@);
}

/// `n` copies of tile `t`.
fn repeated(t: u8, n: u8) -> (r: Vec<u8>)
    ensures
        r@ == repeat(t, n as nat),
{
    let mut v: Vec<u8> = Vec::new();
    let mut i: u8 = 0;
    while i < n
        invariant
            i <= n,
            v@ == repeat(t, i as nat),
        decreases n - i,
    {
        v.push(t);
        assert(v@ =~= repeat(t, i as nat + 1));
        i = i + 1;
    }
    v
}

/// The writes that store `pal` from display address `offset` on.
pub fn write_bytes(offset: u16, pal: &[u8]) -> (r: Vec<PpuWrite>)
    ensures
        r@ == run_writes(offset, pal@),
{
    let mut out: Vec<PpuWrite> = Vec::new();
    out.push(PpuWrite::AddrByte((offset / 256) as u8));
    out.push(PpuWrite::AddrByte((offset % 256) as u8));
    let mut i: usize = 0;
    while i < pal.len()
        invariant
            i <= pal@.len(),
            out@ == run_writes(offset, pal@.subrange(0, i as int)),
        decreases pal@.len() - i,
    {
        out.push(PpuWrite::Data(pal[i]));
        assert(run_writes(offset, pal@.subrange(0, i as int + 1)) =~= run_writes(
            offset,
            pal@.subrange(0, i as int),
        ).push(PpuWrite::Data(pal@[i as int])));
        i = i + 1;
    }
    assert(pal@.subrange(0, pal@.len() as int) =~= pal@);
    out
}

/// The writes that blank the first nametable: 1024 zero tiles from its start.
pub fn clear_nametable() -> (r: Vec<PpuWrite>)
    ensures
        r@ == run_writes(NAMETABLE, repeat(0, 0x400)),
{
    let mut zeros: Vec<u8> = Vec::new();
    let mut i: usize = 0;
    while i < 0x400
        invariant
            i <= 0x400,
            zeros@ == repeat(0, i as nat),
        decreases 0x400 - i,
    {
        zeros.push(0);
        assert(zeros@ =~= repeat(0, i as nat + 1));
        i = i + 1;
    }
    write_bytes(NAMETABLE, zeros.as_slice())
}

/// The operations that frame a box of `w` by `h` tiles at column `x`, row
/// `y` of the first nametable; a box is at least two tiles each way.
pub fn draw_box(x: u8, y: u8, w: u8, h: u8) -> (r: Vec<PpuOp>)
    requires
        w >= 2,
        h >= 2,
    ensures
        r@ == box_ops(x, y, w, h),
{
    let offset: u16 = NAMETABLE + (x as u16 + (y as u16) * 0x20);
    let across = repeated(BOX_TILES + 5, w - 2);
    let side = repeated(BOX_TILES + 4, h - 2);
    let mut out: Vec<PpuOp> = Vec::new();

    let mut top: Vec<u8> = Vec::new();
    top.push(BOX_TILES);
    let mut i: usize = 0;
    while i < across.len()
        invariant
            i <= across@.len(),
            top@ == seq![BOX_TILES] + across@.subrange(0, i as int),
        decreases across@.len() - i,
    {
        top.push(across[i]);
        assert(across@.subrange(0, i as int + 1) =~= across@.subrange(0, i as int).push(across@[i as int]));
        i = i + 1;
    }
    top.push(BOX_TILES + 1);
    assert(across@.subrange(0, across@.len() as int) =~= across@);
    push_run(&mut out, offset, top.as_slice());

    let mut right = side.clone();
    right.push(BOX_TILES + 2);
    push_run(&mut out, offset + 0x20, &[]);
    out.push(PpuOp::VerticalIncrement(true));
    push_tiles(&mut out, right.as_slice());

    let mut left = side.clone();
    left.push(BOX_TILES + 3);
    push_run(&mut out, offset + 0x20 + w as u16 - 1, left.as_slice());
    out.push(PpuOp::VerticalIncrement(false));

    push_run(&mut out, offset + (h as u16 - 1) * 0x20 + 1, across.as_slice());
    proof {
        assert(seq![BOX_TILES] + across@ =~= seq![BOX_TILES].add(across@));
        assert(Seq::<u8>::empty() =~= seq![]);
    }
    out
}

} // verus!
