//! A render queue of tagged directives: set the cursor, write a tile, or
//! stop. Simpler to read than the run-length queue, at a higher cost per tile.
use vstd::prelude::*;
use crate::capped_vec::CappedVec;
use crate::ppu_buffer::PpuWrite;

verus! {

/// One unit of deferred display work.
#[derive(Copy, Clone, PartialEq, Eq, Structural, Debug)]
pub enum BufferDirective {
    /// Set the display cursor to an address.
    Index(u16),
    /// Write a tile at the cursor, which then advances.
    Tile(u8),
    /// Nothing after this is drawn.
    Done,
}

/// The display writes of a directive sequence, up to its first `Done`.
pub open spec fn directive_writes(ds: Seq<BufferDirective>) -> Seq<PpuWrite>
    decreases ds.len(),
{
    if ds.len() == 0 {
        Seq::empty()
    } else {
        match ds[0] {
            BufferDirective::Done => Seq::empty(),
            BufferDirective::Index(a) => seq![
                PpuWrite::AddrByte((a / 256) as u8),
                PpuWrite::AddrByte((a % 256) as u8),
            ] + directive_writes(ds.drop_first()),
            BufferDirective::Tile(t) => seq![PpuWrite::Data(t)] + directive_writes(
                ds.drop_first(),
            ),
        }
    }
}

/// A queue of at most `N` directives.
pub struct Buffer<const N: usize> {
    directives: CappedVec<BufferDirective, N>,
}

impl<const N: usize> View for Buffer<N> {
    type V = Seq<BufferDirective>;

    closed spec fn view(&self) -> Seq<BufferDirective> {
        self.directives@
    }
}

impl<const N: usize> Buffer<N> {
    /// The directive count never passes the capacity.
    pub closed spec fn wf(&self) -> bool {
        self.directives.wf()
    }

    /// An empty queue.
    pub fn new() -> (r: Self)
        ensures
            r.wf(),
            r@ == Seq::<BufferDirective>::empty(),
    {
        Buffer { directives: CappedVec::new() }
    }

    /// Drops every directive.
    pub fn clear(&mut self)
        ensures
            final(self).wf(),
            final(self)@ == Seq::<BufferDirective>::empty(),
    {
        self.directives.clear();
    }

    /// Appends a directive; there must be room.
    pub fn push(&mut self, x: BufferDirective)
        requires
            old(self).wf(),
            old(self)@.len() < N,
        ensures
            final(self).wf(),
            final(self)@ == old(self)@.push(x),
    {
        self.directives.push(x);
    }

    /// Appends directives in order; there must be room for all.
    pub fn extend(&mut self, xs: Vec<BufferDirective>)
        requires
            old(self).wf(),
            old(self)@.len() + xs@.len() <= N,
        ensures
            final(self).wf(),
            final(self)@ == old(self)@ + xs@,
    {
        self.directives.extend(xs);
    }
}

/// The display writes of the queued directives, up to the first `Done`.
pub fn render<const N: usize>(buffer: &Buffer<N>) -> (r: Vec<PpuWrite>)
    ensures
        r@ == directive_writes(buffer@),
{
    let ds = buffer.directives.iter();
    let n = ds.len();
    let mut out: Vec<PpuWrite> = Vec::new();
    let mut i: usize = 0;
    assert(ds@.subrange(0, n as int) =~= ds@);
    while i < n
        invariant
            n == ds@.len(),
            ds@ == buffer@,
            i <= n,
            out@ + directive_writes(ds@.subrange(i as int, n as int)) == directive_writes(ds@),
        decreases n - i,
    {
        let ghost rest = ds@.subrange(i as int, n as int);
        assert(rest.drop_first() =~= ds@.subrange(i as int + 1, n as int));
        match ds[i] {
            BufferDirective::Done => {
                assert(out@ + Seq::<PpuWrite>::empty() =~= out@);
                return out;
            },
            BufferDirective::Index(a) => {
                out.push(PpuWrite::AddrByte((a / 256) as u8));
                out.push(PpuWrite::AddrByte((a % 256) as u8));
            },
            BufferDirective::Tile(t) => {
                out.push(PpuWrite::Data(t));
            },
        }
        assert(out@ + directive_writes(ds@.subrange(i as int + 1, n as int)) =~= directive_writes(
            ds@,
        ));
        i = i + 1;
    }
    assert(out@ + Seq::<PpuWrite>::empty() =~= out@);
    out
}

} // verus!
