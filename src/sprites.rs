//! The sprite attribute table, rebuilt every frame and copied to the display
//! in one bulk transfer.
use vstd::prelude::*;
use crate::addr::{Addr, RegWrite};
use crate::vec2::{wrap_u8, Pos, Vec2};

verus! {

/// Sprites the display shows at once.
pub const SPRITE_CAPACITY: usize = 64;

/// Bytes in the table: four per sprite.
pub const TABLE_SIZE: usize = 256;

/// A y coordinate below the visible screen, which hides a sprite.
pub const OFFSCREEN_Y: u8 = 0xff;

/// Left edge of the playfield in sprite coordinates.
pub const LEFT_MARGIN: u8 = 16;

/// Top edge of the playfield in sprite coordinates.
pub const TOP_MARGIN: u8 = 16;

/// Where the sprite table sits in memory: page 2.
pub const TABLE_ADDR: u16 = 0x200;

/// The display's sprite memory address register.
pub const OAM_ADDR: u16 = 0x2003;

/// The register that starts the bulk transfer of a memory page.
pub const OAM_DMA: u16 = 0x4014;

/// The register writes that copy the sprite table to the display: start at
/// sprite memory 0, then transfer the table's page.
pub fn dma() -> (r: [RegWrite; 2])
    ensures
        r@[0] == (RegWrite { at: Addr(OAM_ADDR), value: 0 }),
        r@[1] == (RegWrite { at: Addr(OAM_DMA), value: (TABLE_ADDR / 256) as u8 }),
{
    [
        RegWrite { at: Addr(OAM_ADDR), value: 0 },
        RegWrite { at: Addr(OAM_DMA), value: (TABLE_ADDR / 256) as u8 },
    ]
}

/// A position in sprite coordinates.
pub struct SpritePos(pub Pos);

impl SpritePos {
    /// The sprite coordinates of a playfield position: shifted by the
    /// margins, and one line up since sprites are drawn a line late.
    pub fn from_pos(pos: &Pos) -> (r: SpritePos)
        ensures
            r.0.x == wrap_u8(TOP_MARGIN + pos.x),
            r.0.y == wrap_u8(LEFT_MARGIN + pos.y - 1),
    {
        SpritePos(
            Vec2 {
                x: TOP_MARGIN.wrapping_add(pos.x),
                y: LEFT_MARGIN.wrapping_add(pos.y).wrapping_sub(1),
            },
        )
    }
}

/// The table bytes of a blank frame: every sprite off screen.
pub open spec fn blank_byte(i: int) -> u8 {
    if i % 4 == 0 {
        OFFSCREEN_Y
    } else {
        0
    }
}

/// `bytes` with slot `k` holding a sprite record.
pub open spec fn with_record(bytes: Seq<u8>, k: int, x: u8, y: u8, tile: u8, attr: u8) -> Seq<u8> {
    bytes.update(4 * k, y).update(4 * k + 1, tile).update(4 * k + 2, attr).update(4 * k + 3, x)
}

/// The sprite table and the slot that the next sprite takes.
pub struct SpriteState {
    table: Vec<u8>,
    index: usize,
}

impl Default for SpriteState {
    /// An empty table, every sprite off screen.
    fn default() -> (r: Self)
        ensures
            r.wf(),
            r.bytes().len() == TABLE_SIZE,
            r.count() == 0,
            forall|i: int| 0 <= i < TABLE_SIZE ==> r.bytes()[i] == blank_byte(i),
    {
        SpriteState::new()
    }
}

impl SpriteState {
    /// Four bytes per slot; the slots before the cursor are taken.
    pub closed spec fn wf(&self) -> bool {
        &&& self.table@.len() == TABLE_SIZE
        &&& self.index <= SPRITE_CAPACITY
    }

    /// The table's bytes: y, tile, attributes, x for each slot.
    pub closed spec fn bytes(&self) -> Seq<u8> {
        self.table@
    }

    /// How many sprites were added since the last clear.
    pub closed spec fn count(&self) -> int {
        self.index as int
    }

    /// A well-formed table has 256 bytes and at most `SPRITE_CAPACITY` sprites.
    pub proof fn lemma_wf_bounds(&self)
        requires
            self.wf(),
        ensures
            self.bytes().len() == TABLE_SIZE,
            0 <= self.count() <= SPRITE_CAPACITY,
    {
    }

    /// An empty table, every sprite off screen.
    pub fn new() -> (r: Self)
        ensures
            r.wf(),
            r.bytes().len() == TABLE_SIZE,
            r.count() == 0,
            forall|i: int| 0 <= i < TABLE_SIZE ==> r.bytes()[i] == blank_byte(i),
    {
        let mut s = SpriteState { table: Vec::new(), index: 0 };
        let mut i: usize = 0;
        while i < TABLE_SIZE
            invariant
                i <= TABLE_SIZE,
                s.index == 0,
                s.table@.len() == i,
                forall|j: int| 0 <= j < i ==> s.table@[j] == blank_byte(j),
            decreases TABLE_SIZE - i,
        {
            if i % 4 == 0 {
                s.table.push(OFFSCREEN_Y);
            } else {
                s.table.push(0);
            }
            i = i + 1;
        }
        s
    }

    /// Hides every sprite and resets the cursor.
    pub fn clear(&mut self)
        requires
            old(self).wf(),
        ensures
            final(self).wf(),
            final(self).bytes().len() == TABLE_SIZE,
            final(self).count() == 0,
            forall|i: int| 0 <= i < TABLE_SIZE ==> final(self).bytes()[i] == blank_byte(i),
    {
        let mut i: usize = 0;
        while i < TABLE_SIZE
            invariant
                i <= TABLE_SIZE,
                self.table@.len() == TABLE_SIZE,
                self.index <= SPRITE_CAPACITY,
                forall|j: int| 0 <= j < i ==> self.table@[j] == blank_byte(j),
            decreases TABLE_SIZE - i,
        {
            if i % 4 == 0 {
                self.table.set(i, OFFSCREEN_Y);
            } else {
                self.table.set(i, 0);
            }
            i = i + 1;
        }
        self.index = 0;
    }

    /// Takes the next slot for a sprite; fails and changes nothing when all
    /// slots are taken.
    pub fn add(&mut self, x: u8, y: u8, tile: u8, attr: u8) -> (r: Result<(), ()>)
        requires
            old(self).wf(),
        ensures
            final(self).wf(),
            final(self).bytes().len() == TABLE_SIZE,
            0 <= final(self).count() <= SPRITE_CAPACITY,
            r is Ok <==> old(self).count() < SPRITE_CAPACITY,
            r is Err ==> final(self).bytes() == old(self).bytes() && final(self).count() == old(
                self,
            ).count(),
            r is Ok ==> final(self).count() == old(self).count() + 1 && final(self).bytes()
                == with_record(old(self).bytes(), old(self).count(), x, y, tile, attr),
    {
        if self.index >= SPRITE_CAPACITY {
            return Err(());
        }
        let at = 4 * self.index;
        self.table.set(at, y);
        self.table.set(at + 1, tile);
        self.table.set(at + 2, attr);
        self.table.set(at + 3, x);
        self.index = self.index + 1;
        Ok(())
    }

    /// Takes the next slot for a sprite at a position.
    pub fn add_at_pos(&mut self, pos: &Pos, tile: u8, attr: u8) -> (r: Result<(), ()>)
        requires
            old(self).wf(),
        ensures
            final(self).wf(),
            final(self).bytes().len() == TABLE_SIZE,
            0 <= final(self).count() <= SPRITE_CAPACITY,
            r is Ok <==> old(self).count() < SPRITE_CAPACITY,
            r is Err ==> final(self).bytes() == old(self).bytes() && final(self).count() == old(
                self,
            ).count(),
            r is Ok ==> final(self).count() == old(self).count() + 1 && final(self).bytes()
                == with_record(old(self).bytes(), old(self).count(), pos.x, pos.y, tile, attr),
    {
        self.add(pos.x, pos.y, tile, attr)
    }

    /// The table, for the bulk transfer to the display.
    pub fn table(&self) -> (r: &[u8])
        ensures
            r@ == self.bytes(),
    {
        self.table.as_slice()
    }
}

} // verus!
