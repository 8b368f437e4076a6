//! The render queue: drawing work recorded during a frame as run-length
//! segments, and drained by the display routine into register writes.
//!
//! Each segment is stored as `length | start address high | start address
//! low | tile bytes...`, so the consumer sets the display address once per
//! segment and lets the display advance it for each tile.
use vstd::prelude::*;
use crate::addr::Addr;
use crate::capped_vec::CappedVec;
use vstd::string::StringSliceAdditionalSpecFns;

verus! {

/// One write to the display: a byte of the cursor address (high byte first),
/// or a tile at the cursor, which then advances.
#[derive(Copy, Clone, PartialEq, Eq, Structural, Debug)]
pub enum PpuWrite {
    AddrByte(u8),
    Data(u8),
}

/// Why a segment could not be queued.
#[derive(Copy, Clone, PartialEq, Eq, Structural, Debug)]
pub enum BufferError {
    /// The queue has no room for the segment.
    Full,
    /// A segment holds at most 255 tiles.
    RunTooLong,
}

/// Where the consumer stands in the byte stream; the number is the count of
/// tiles still to draw in the current segment.
#[derive(Copy, Clone, PartialEq, Eq, Structural, Debug)]
pub enum DrainState {
    GetLength,
    WriteAddrHigh(u8),
    WriteAddrLow(u8),
    DrawTile(u8),
}

/// The consumer's state after byte `b`.
pub open spec fn step_state(s: DrainState, b: u8) -> DrainState {
    match s {
        DrainState::GetLength => DrainState::WriteAddrHigh(b),
        DrainState::WriteAddrHigh(len) => DrainState::WriteAddrLow(len),
        DrainState::WriteAddrLow(len) => DrainState::DrawTile(len),
        DrainState::DrawTile(n) => if n == 1 {
            DrainState::GetLength
        } else {
            DrainState::DrawTile(((n - 1) % 256) as u8)
        },
    }
}

/// What the consumer writes on byte `b`.
pub open spec fn step_out(s: DrainState, b: u8) -> Seq<PpuWrite> {
    match s {
        DrainState::GetLength => Seq::empty(),
        DrainState::WriteAddrHigh(_) => seq![PpuWrite::AddrByte(b)],
        DrainState::WriteAddrLow(_) => seq![PpuWrite::AddrByte(b)],
        DrainState::DrawTile(_) => seq![PpuWrite::Data(b)],
    }
}

/// Everything the consumer writes on `bytes`, from state `s`.
pub open spec fn drain(s: DrainState, bytes: Seq<u8>) -> Seq<PpuWrite>
    decreases bytes.len(),
{
    if bytes.len() == 0 {
        Seq::empty()
    } else {
        step_out(s, bytes[0]) + drain(step_state(s, bytes[0]), bytes.drop_first())
    }
}

/// The consumer's state after `bytes`, from state `s`.
pub open spec fn drain_end(s: DrainState, bytes: Seq<u8>) -> DrainState
    decreases bytes.len(),
{
    if bytes.len() == 0 {
        s
    } else {
        drain_end(step_state(s, bytes[0]), bytes.drop_first())
    }
}

/// The bytes of one segment.
pub open spec fn encode_run(addr: u16, tiles: Seq<u8>) -> Seq<u8> {
    seq![tiles.len() as u8, (addr / 256) as u8, (addr % 256) as u8] + tiles
}

/// The bytes of a sequence of segments, in order.
pub open spec fn encode(runs: Seq<(u16, Seq<u8>)>) -> Seq<u8>
    decreases runs.len(),
{
    if runs.len() == 0 {
        Seq::empty()
    } else {
        encode(runs.drop_last()) + encode_run(runs.last().0, runs.last().1)
    }
}

/// The writes that draw `tiles` from `addr` on: the address, then each tile.
pub open spec fn run_writes(addr: u16, tiles: Seq<u8>) -> Seq<PpuWrite> {
    seq![PpuWrite::AddrByte((addr / 256) as u8), PpuWrite::AddrByte((addr % 256) as u8)]
        + tiles.map_values(|t: u8| PpuWrite::Data(t))
}

/// The writes that draw a sequence of segments, in order.
pub open spec fn writes(runs: Seq<(u16, Seq<u8>)>) -> Seq<PpuWrite>
    decreases runs.len(),
{
    if runs.len() == 0 {
        Seq::empty()
    } else {
        writes(runs.drop_last()) + run_writes(runs.last().0, runs.last().1)
    }
}

/// Each segment holds between 1 and 255 tiles.
pub open spec fn runs_valid(runs: Seq<(u16, Seq<u8>)>) -> bool {
    forall|i: int| 0 <= i < runs.len() ==> 1 <= #[trigger] runs[i].1.len() <= 255
}

/// Draining `a + b` is draining `a`, then `b` from where `a` left off.
pub proof fn lemma_drain_append(s: DrainState, a: Seq<u8>, b: Seq<u8>)
    ensures
        drain(s, a + b) == drain(s, a) + drain(drain_end(s, a), b),
        drain_end(s, a + b) == drain_end(drain_end(s, a), b),
    decreases a.len(),
{
    if a.len() == 0 {
        assert(a + b =~= b);
    } else {
        assert((a + b).drop_first() =~= a.drop_first() + b);
        assert((a + b)[0] == a[0]);
        lemma_drain_append(step_state(s, a[0]), a.drop_first(), b);
        assert(drain(s, a + b) =~= drain(s, a) + drain(drain_end(s, a), b));
    }
}

/// `n` tiles drained while `n` are due are drawn one for one, and the
/// consumer then waits for the next segment.
pub proof fn lemma_drain_tiles(tiles: Seq<u8>)
    requires
        1 <= tiles.len() <= 255,
    ensures
        drain(DrainState::DrawTile(tiles.len() as u8), tiles) == tiles.map_values(
            |t: u8| PpuWrite::Data(t),
        ),
        drain_end(DrainState::DrawTile(tiles.len() as u8), tiles) == DrainState::GetLength,
    decreases tiles.len(),
{
    let rest = tiles.drop_first();
    let s0 = DrainState::DrawTile(tiles.len() as u8);
    let s1 = step_state(s0, tiles[0]);
    assert(drain(s0, tiles) == seq![PpuWrite::Data(tiles[0])] + drain(s1, rest));
    assert(drain_end(s0, tiles) == drain_end(s1, rest));
    if tiles.len() == 1 {
        assert(rest.len() == 0);
        assert(s1 == DrainState::GetLength);
        assert(drain(s1, rest) == Seq::<PpuWrite>::empty());
        assert(tiles.map_values(|t: u8| PpuWrite::Data(t)) =~= seq![PpuWrite::Data(tiles[0])]);
        assert(drain(s0, tiles) =~= seq![PpuWrite::Data(tiles[0])]);
    } else {
        lemma_drain_tiles(rest);
        assert(s1 == DrainState::DrawTile(rest.len() as u8));
        assert(tiles.map_values(|t: u8| PpuWrite::Data(t)) =~= seq![PpuWrite::Data(tiles[0])]
            + rest.map_values(|t: u8| PpuWrite::Data(t)));
    }
}

/// One segment drains to its address and its tiles.
pub proof fn lemma_drain_run(addr: u16, tiles: Seq<u8>)
    requires
        1 <= tiles.len() <= 255,
    ensures
        drain(DrainState::GetLength, encode_run(addr, tiles)) == run_writes(addr, tiles),
        drain_end(DrainState::GetLength, encode_run(addr, tiles)) == DrainState::GetLength,
{
    let head = seq![tiles.len() as u8, (addr / 256) as u8, (addr % 256) as u8];
    lemma_drain_append(DrainState::GetLength, head, tiles);
    let s0 = DrainState::GetLength;
    let s1 = step_state(s0, head[0]);
    let s2 = step_state(s1, head[1]);
    let s3 = step_state(s2, head[2]);
    let h1 = head.drop_first();
    let h2 = h1.drop_first();
    let h3 = h2.drop_first();
    assert(h1 =~= seq![head[1], head[2]]);
    assert(h2 =~= seq![head[2]]);
    assert(h3 =~= Seq::<u8>::empty());
    assert(drain(s3, h3) == Seq::<PpuWrite>::empty());
    assert(drain_end(s3, h3) == s3);
    assert(drain(s2, h2) == step_out(s2, head[2]) + drain(s3, h3));
    assert(drain_end(s2, h2) == drain_end(s3, h3));
    assert(drain(s1, h1) == step_out(s1, head[1]) + drain(s2, h2));
    assert(drain_end(s1, h1) == drain_end(s2, h2));
    assert(drain(s0, head) == step_out(s0, head[0]) + drain(s1, h1));
    assert(drain_end(s0, head) == drain_end(s1, h1));
    assert(s3 == DrainState::DrawTile(tiles.len() as u8));
    lemma_drain_tiles(tiles);
    assert(drain(s0, head) =~= seq![
        PpuWrite::AddrByte((addr / 256) as u8),
        PpuWrite::AddrByte((addr % 256) as u8),
    ]);
    assert(encode_run(addr, tiles) == head + tiles);
}

/// Queued segments drain to exactly their writes, in the order they were
/// queued, and the consumer ends waiting for a segment.
pub proof fn lemma_round_trip(runs: Seq<(u16, Seq<u8>)>)
    requires
        runs_valid(runs),
    ensures
        drain(DrainState::GetLength, encode(runs)) == writes(runs),
        drain_end(DrainState::GetLength, encode(runs)) == DrainState::GetLength,
    decreases runs.len(),
{
    if runs.len() > 0 {
        let front = runs.drop_last();
        assert forall|i: int| 0 <= i < front.len() implies 1 <= #[trigger] front[i].1.len()
            <= 255 by {
            assert(front[i] == runs[i]);
        }
        lemma_round_trip(front);
        let last = runs.last();
        assert(1 <= runs[runs.len() - 1].1.len() <= 255);
        lemma_drain_append(DrainState::GetLength, encode(front), encode_run(last.0, last.1));
        lemma_drain_run(last.0, last.1);
    }
}

/// Drains a byte stream into display writes, one state step per byte.
pub fn render_bytes(bytes: &[u8]) -> (r: Vec<PpuWrite>)
    ensures
        r@ == drain(DrainState::GetLength, bytes@),
{
    let mut out: Vec<PpuWrite> = Vec::new();
    let mut state = DrainState::GetLength;
    let mut i: usize = 0;
    let n = bytes.len();
    assert(bytes@.subrange(0, n as int) =~= bytes@);
    while i < n
        invariant
            n == bytes@.len(),
            i <= n,
            out@ + drain(state, bytes@.subrange(i as int, n as int)) == drain(
                DrainState::GetLength,
                bytes@,
            ),
        decreases n - i,
    {
        let b = bytes[i];
        let ghost rest = bytes@.subrange(i as int, n as int);
        assert(rest[0] == b);
        assert(rest.drop_first() =~= bytes@.subrange(i as int + 1, n as int));
        let ghost before = out@;
        state = match state {
            DrainState::GetLength => DrainState::WriteAddrHigh(b),
            DrainState::WriteAddrHigh(len) => {
                out.push(PpuWrite::AddrByte(b));
                DrainState::WriteAddrLow(len)
            },
            DrainState::WriteAddrLow(len) => {
                out.push(PpuWrite::AddrByte(b));
                DrainState::DrawTile(len)
            },
            DrainState::DrawTile(n_remaining) => {
                out.push(PpuWrite::Data(b));
                if n_remaining == 1 {
                    DrainState::GetLength
                } else {
                    DrainState::DrawTile(n_remaining.wrapping_sub(1))
                }
            },
        };
        i = i + 1;
    }
    assert(bytes@.subrange(n as int, n as int) =~= Seq::<u8>::empty());
    out
}

/// The render queue, with room for `N` bytes.
pub struct Buffer<const N: usize> {
    bytes: CappedVec<u8, N>,
    runs: Ghost<Seq<(u16, Seq<u8>)>>,
}

impl<const N: usize> Buffer<N> {
    /// The bytes hold exactly the encoding of the queued segments.
    pub closed spec fn wf(&self) -> bool {
        &&& self.bytes.wf()
        &&& self.bytes@ == encode(self.runs@)
        &&& runs_valid(self.runs@)
    }

    /// The queued segments, as (start address, tiles), in order.
    pub closed spec fn runs(&self) -> Seq<(u16, Seq<u8>)> {
        self.runs@
    }

    /// The bytes in use.
    pub closed spec fn bytes(&self) -> Seq<u8> {
        self.bytes@
    }

    /// An empty queue.
    pub fn new() -> (r: Self)
        ensures
            r.wf(),
            r.runs() == Seq::<(u16, Seq<u8>)>::empty(),
    {
        Buffer { bytes: CappedVec::new(), runs: Ghost(Seq::empty()) }
    }

    /// Drops every queued segment.
    pub fn clear(&mut self)
        ensures
            final(self).wf(),
            final(self).runs() == Seq::<(u16, Seq<u8>)>::empty(),
    {
        self.bytes.clear();
        self.runs = Ghost(Seq::empty());
    }

    /// The number of bytes in use.
    pub fn len(&self) -> (r: usize)
        requires
            self.wf(),
        ensures
            r == encode(self.runs()).len(),
            r <= N,
    {
        self.bytes.len()
    }

    /// Queues a segment that draws `xs` from `addr` on. Nothing is queued for
    /// no tiles; more than 255 tiles, or more bytes than there is room for,
    /// fail and leave the queue as it was.
    pub fn tiles(&mut self, addr: Addr, xs: &[u8]) -> (r: Result<(), BufferError>)
        requires
            old(self).wf(),
        ensures
            final(self).wf(),
            xs@.len() == 0 ==> r is Ok && final(self).runs() == old(self).runs(),
            xs@.len() > 255 ==> r == Err::<(), BufferError>(BufferError::RunTooLong),
            1 <= xs@.len() <= 255 && encode(old(self).runs()).len() + 3 + xs@.len() > N ==> r
                == Err::<(), BufferError>(BufferError::Full),
            1 <= xs@.len() <= 255 && encode(old(self).runs()).len() + 3 + xs@.len() <= N ==> r
                is Ok && final(self).runs() == old(self).runs().push((addr.0, xs@)),
            r is Err ==> final(self).runs() == old(self).runs(),
    {
        let n = xs.len();
        if n == 0 {
            return Ok(());
        }
        if n > 255 {
            return Err(BufferError::RunTooLong);
        }
        if n + 3 > N - self.bytes.len() {
            return Err(BufferError::Full);
        }
        let a = addr.addr();
        let ghost start = self.bytes@;
        assert(start == encode(self.runs@));
        self.bytes.push(n as u8);
        self.bytes.push((a / 256) as u8);
        self.bytes.push((a % 256) as u8);
        let mut i: usize = 0;
        while i < n
            invariant
                n == xs@.len(),
                n <= 255,
                i <= n,
                self.runs@ == old(self).runs@,
                start == encode(self.runs@),
                runs_valid(self.runs@),
                self.bytes.wf(),
                start.len() + 3 + n <= N,
                self.bytes@ == start + seq![n as u8, (a / 256) as u8, (a % 256) as u8]
                    + xs@.subrange(0, i as int),
            decreases n - i,
        {
            self.bytes.push(xs[i]);
            assert(xs@.subrange(0, i as int + 1) =~= xs@.subrange(0, i as int).push(xs@[i as int]));
            i = i + 1;
        }
        assert(xs@.subrange(0, n as int) =~= xs@);
        let ghost new_runs = self.runs@.push((a, xs@));
        assert(new_runs.drop_last() =~= self.runs@);
        assert(self.runs@ == old(self).runs@);
        assert(new_runs.last() == (a, xs@));
        assert(encode(new_runs) == encode(self.runs@) + encode_run(a, xs@));
        assert(encode_run(a, xs@) =~= seq![n as u8, (a / 256) as u8, (a % 256) as u8] + xs@);
        assert(self.bytes@ =~= encode(new_runs));
        assert forall|j: int| 0 <= j < new_runs.len() implies 1 <= #[trigger] new_runs[j].1.len()
            <= 255 by {
            if j < self.runs@.len() {
                assert(new_runs[j] == self.runs@[j]);
            } else {
                assert(new_runs[j] == (a, xs@));
            }
        }
        self.runs = Ghost(new_runs);
        Ok(())
    }

    /// Queues a segment of one tile.
    pub fn tile(&mut self, addr: Addr, x: u8) -> (r: Result<(), BufferError>)
        requires
            old(self).wf(),
        ensures
            final(self).wf(),
            encode(old(self).runs()).len() + 4 > N ==> r == Err::<(), BufferError>(
                BufferError::Full,
            ) && final(self).runs() == old(self).runs(),
            encode(old(self).runs()).len() + 4 <= N ==> r is Ok && final(self).runs() == old(
                self,
            ).runs().push((addr.0, seq![x])),
    {
        let xs: [u8; 1] = [x];
        assert(xs@ =~= seq![x]);
        self.tiles(addr, xs.as_slice())
    }

    /// Queues a segment that draws ASCII `text`, each byte shifted down by 32
    /// into the tile set's character range.
    pub fn draw_text(&mut self, addr: Addr, text: &str) -> (r: Result<(), BufferError>)
        requires
            old(self).wf(),
        ensures
            final(self).wf(),
            ({
                let tiles = text_tiles(text.spec_bytes());
                &&& tiles.len() == 0 ==> r is Ok && final(self).runs() == old(self).runs()
                &&& tiles.len() > 255 ==> r == Err::<(), BufferError>(BufferError::RunTooLong)
                &&& 1 <= tiles.len() <= 255 && encode(old(self).runs()).len() + 3 + tiles.len()
                    > N ==> r == Err::<(), BufferError>(BufferError::Full)
                &&& 1 <= tiles.len() <= 255 && encode(old(self).runs()).len() + 3 + tiles.len()
                    <= N ==> r is Ok && final(self).runs() == old(self).runs().push(
                    (addr.0, tiles),
                )
                &&& r is Err ==> final(self).runs() == old(self).runs()
            }),
    {
        let bytes = text.as_bytes();
        let mut tiles: Vec<u8> = Vec::with_capacity(bytes.len());
        let mut i: usize = 0;
        while i < bytes.len()
            invariant
                bytes@ == text.spec_bytes(),
                i <= bytes@.len(),
                tiles@ == text_tiles(bytes@.subrange(0, i as int)),
            decreases bytes@.len() - i,
        {
            tiles.push(bytes[i].wrapping_sub(32));
            assert(text_tiles(bytes@.subrange(0, i as int + 1)) =~= text_tiles(
                bytes@.subrange(0, i as int),
            ).push(((bytes@[i as int] - 32) % 256) as u8));
            i = i + 1;
        }
        assert(bytes@.subrange(0, bytes@.len() as int) =~= bytes@);
        self.tiles(addr, tiles.as_slice())
    }

    /// The display writes that draw every queued segment, in the order they
    /// were queued; none for an empty queue.
    pub fn render(&self) -> (r: Vec<PpuWrite>)
        requires
            self.wf(),
        ensures
            r@ == writes(self.runs()),
    {
        proof {
            lemma_round_trip(self.runs@);
        }
        render_bytes(self.bytes.iter())
    }
}

/// The tiles of ASCII text: each byte shifted down by 32, wrapping.
pub open spec fn text_tiles(bytes: Seq<u8>) -> Seq<u8> {
    bytes.map_values(|b: u8| ((b - 32) % 256) as u8)
}

} // verus!
