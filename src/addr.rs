//! Addresses in the console's 16-bit memory map, and the register writes
//! that the library asks the hardware layer to perform.
use vstd::prelude::*;

verus! {

/// An address in the 16-bit memory map.
#[derive(Copy, Clone, PartialEq, Eq, Structural, Debug)]
pub struct Addr(pub u16);

/// One byte to store at one address.
#[derive(Copy, Clone, PartialEq, Eq, Structural, Debug)]
pub struct RegWrite {
    pub at: Addr,
    pub value: u8,
}

/// `a + count`, wrapping round the 16-bit address space.
pub open spec fn offset_spec(a: u16, count: int) -> u16 {
    ((a + count) % 65536) as u16
}

impl Addr {
    /// This address moved by `count`, wrapping round the address space.
    pub fn offset(self, count: isize) -> (r: Self)
        ensures
            r.0 == offset_spec(self.0, count as int),
    {
        let c: u16 = #[verifier::truncate] (count as u16);
        let r = self.0.wrapping_add(c);
        let a = self.0;
        assert(r == ((a + count) % 65536) as u16) by (bit_vector)
            requires
                c == #[verifier::truncate] (count as u16),
                r == a.wrapping_add(c),
        ;
        Addr(r)
    }

    /// Moves this address by `count`, wrapping round the address space.
    pub fn add(&mut self, count: isize)
        ensures
            final(self).0 == offset_spec(old(self).0, count as int),
    {
        self.0 = self.offset(count).0;
    }

    /// The address as a number.
    pub fn addr(self) -> (r: u16)
        ensures
            r == self.0,
    {
        self.0
    }

    /// The writes that store `value` here, low byte first, high byte at the
    /// next address.
    pub fn write16(self, value: u16) -> (r: [RegWrite; 2])
        ensures
            r@[0] == (RegWrite { at: self, value: (value % 256) as u8 }),
            r@[1] == (RegWrite { at: Addr(offset_spec(self.0, 1)), value: (value / 256) as u8 }),
    {
        let lo = (value & 0xff) as u8;
        let hi = (value >> 8u16) as u8;
        assert(lo == (value % 256) as u8 && hi == (value / 256) as u8) by (bit_vector)
            requires
                lo == (value & 0xff) as u8,
                hi == (value >> 8u16) as u8,
        ;
        [RegWrite { at: self, value: lo }, RegWrite { at: self.offset(1), value: hi }]
    }
}

/// The writes that mark `value` in memory for a debugger: `0xaa`, `value`,
/// `0xaa`, `0xab` from `at` on.
pub fn debug_value(at: u16, value: u8) -> (r: [RegWrite; 4])
    ensures
        r@[0] == (RegWrite { at: Addr(at), value: 0xaa }),
        r@[1] == (RegWrite { at: Addr(offset_spec(at, 1)), value: value }),
        r@[2] == (RegWrite { at: Addr(offset_spec(at, 2)), value: 0xaa }),
        r@[3] == (RegWrite { at: Addr(offset_spec(at, 3)), value: 0xab }),
{
    let a = Addr(at);
    [
        RegWrite { at: a, value: 0xaa },
        RegWrite { at: a.offset(1), value },
        RegWrite { at: a.offset(2), value: 0xaa },
        RegWrite { at: a.offset(3), value: 0xab },
    ]
}

} // verus!
