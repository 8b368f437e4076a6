//! Screen positions, signed displacements, and their wrapping arithmetic.
use vstd::prelude::*;

verus! {

/// The sense in which an agent turns when it is blocked.
#[derive(Copy, Clone, PartialEq, Eq, Structural, Debug)]
pub enum Orientation {
    Clockwise,
    Widdershins,
}

/// The sign of a nonzero displacement.
#[derive(Copy, Clone, PartialEq, Eq, Structural, Debug)]
pub enum Sign {
    Plus,
    Minus,
}

/// A pair of coordinates.
#[derive(Copy, Clone, PartialEq, Eq, Structural, Debug)]
pub struct Vec2<T> {
    pub x: T,
    pub y: T,
}

/// A position in display space.
pub type Pos = Vec2<u8>;

/// A displacement in display space.
pub type DPos = Vec2<i8>;

/// `x` wrapped into the unsigned 8-bit range.
pub open spec fn wrap_u8(x: int) -> u8 {
    (x % 256) as u8
}

/// `x` moved by `dx`, wrapping round the 8-bit range.
pub open spec fn inc_u8_spec(x: u8, dx: i8) -> u8 {
    wrap_u8(x as int + dx as int)
}

/// `x` wrapped into the signed 8-bit range.
pub open spec fn wrap_i8(x: int) -> i8 {
    let m = x % 256;
    if m >= 128 {
        (m - 256) as i8
    } else {
        m as i8
    }
}

/// A position moved by a displacement, each coordinate wrapping.
pub open spec fn shifted_spec(p: Pos, d: DPos) -> Pos {
    Vec2 { x: inc_u8_spec(p.x, d.x), y: inc_u8_spec(p.y, d.y) }
}

/// The displacement with its y part dropped.
pub open spec fn x_part(d: DPos) -> DPos {
    Vec2 { x: d.x, y: 0 }
}

/// The displacement with its x part dropped.
pub open spec fn y_part(d: DPos) -> DPos {
    Vec2 { x: 0, y: d.y }
}

/// A quarter turn: clockwise `(x, y) -> (-y, x)`, widdershins `(x, y) -> (y, -x)`.
pub open spec fn rotate_spec(d: DPos, o: Orientation) -> DPos {
    match o {
        Orientation::Clockwise => Vec2 { x: wrap_i8(-(d.y as int)), y: d.x },
        Orientation::Widdershins => Vec2 { x: d.y, y: wrap_i8(-(d.x as int)) },
    }
}

/// The absolute value.
pub open spec fn abs_int(x: int) -> int {
    if x < 0 {
        -x
    } else {
        x
    }
}

/// The L1 distance of two positions, from the wrapped signed difference of
/// each coordinate, wrapping round the 8-bit range.
pub open spec fn l1_spec(a: Pos, b: Pos) -> u8 {
    wrap_u8(
        abs_int(wrap_i8(a.x as int - b.x as int) as int) + abs_int(
            wrap_i8(a.y as int - b.y as int) as int,
        ),
    )
}

/// Moves `x` by `dx`, wrapping round the 8-bit range.
pub fn inc_u8(x: u8, dx: i8) -> (r: u8)
    ensures
        r == inc_u8_spec(x, dx),
{
    let r = (x as i8).wrapping_add(dx) as u8;
    assert(((x as i8).wrapping_add(dx) as u8) == (((x as int + dx as int) % 256) as u8))
        by (bit_vector);
    r
}

impl Orientation {
    /// The other sense.
    pub fn reverse(self) -> (r: Self)
        ensures
            r != self,
    {
        match self {
            Orientation::Clockwise => Orientation::Widdershins,
            Orientation::Widdershins => Orientation::Clockwise,
        }
    }
}

impl Sign {
    /// The unit displacement of this sign.
    pub fn to_i8(self) -> (r: i8)
        ensures
            r == (match self {
                Sign::Plus => 1i8,
                Sign::Minus => -1i8,
            }),
    {
        match self {
            Sign::Plus => 1,
            Sign::Minus => -1,
        }
    }
}

impl<T> Vec2<T> {
    /// The pair `(x, y)`.
    pub fn new(x: T, y: T) -> (r: Self)
        ensures
            r.x == x,
            r.y == y,
    {
        Vec2 { x, y }
    }
}

impl Pos {
    /// Moves this position by `delta`, each coordinate wrapping.
    pub fn inc(&mut self, delta: &DPos)
        ensures
            *final(self) == shifted_spec(*old(self), *delta),
    {
        self.x = inc_u8(self.x, delta.x);
        self.y = inc_u8(self.y, delta.y);
    }

    /// This position moved by `delta`, each coordinate wrapping.
    pub fn shifted(&self, delta: &DPos) -> (r: Pos)
        ensures
            r == shifted_spec(*self, *delta),
    {
        let mut new_pos = *self;
        new_pos.inc(delta);
        new_pos
    }

    /// `self - other`, each coordinate read as signed and wrapping.
    pub fn delta(&self, other: &Pos) -> (r: DPos)
        ensures
            r.x == wrap_i8(self.x as int - other.x as int),
            r.y == wrap_i8(self.y as int - other.y as int),
    {
        let x = (self.x as i8).wrapping_sub(other.x as i8);
        let y = (self.y as i8).wrapping_sub(other.y as i8);
        proof {
            let (a, b) = (self.x, other.x);
            assert((a as i8).wrapping_sub(b as i8) == wrap_i8(a as int - b as int)) by (bit_vector);
            let (c, e) = (self.y, other.y);
            assert((c as i8).wrapping_sub(e as i8) == wrap_i8(c as int - e as int)) by (bit_vector);
        }
        Vec2 { x, y }
    }

    /// The L1 distance, from the wrapped signed difference of each coordinate.
    pub fn l1_dist(&self, other: &Pos) -> (r: u8)
        ensures
            r == l1_spec(*self, *other),
    {
        self.delta(other).l1_norm()
    }
}

impl DPos {
    /// The zero displacement.
    pub fn zero() -> (r: Self)
        ensures
            r.x == 0 && r.y == 0,
    {
        Vec2 { x: 0, y: 0 }
    }

    /// This displacement along x only.
    pub fn x_vec(&self) -> (r: Self)
        ensures
            r == x_part(*self),
    {
        Vec2 { x: self.x, y: 0 }
    }

    /// This displacement along y only.
    pub fn y_vec(&self) -> (r: Self)
        ensures
            r == y_part(*self),
    {
        Vec2 { x: 0, y: self.y }
    }

    /// This displacement times `scalar`, each part wrapping.
    pub fn scaled(&self, scalar: i8) -> (r: Self)
        ensures
            r.x == wrap_i8(self.x as int * scalar as int),
            r.y == wrap_i8(self.y as int * scalar as int),
    {
        let x = self.x.wrapping_mul(scalar);
        let y = self.y.wrapping_mul(scalar);
        proof {
            let (a, b, c) = (self.x, self.y, scalar);
            assert(a.wrapping_mul(c) == wrap_i8(a as int * c as int)) by (bit_vector);
            assert(b.wrapping_mul(c) == wrap_i8(b as int * c as int)) by (bit_vector);
        }
        Vec2 { x, y }
    }

    /// This displacement turned a quarter in the sense `orientation`.
    pub fn rotate(&self, orientation: Orientation) -> (r: Self)
        ensures
            r == rotate_spec(*self, orientation),
    {
        let nx = 0i8.wrapping_sub(self.x);
        let ny = 0i8.wrapping_sub(self.y);
        proof {
            let (a, b) = (self.x, self.y);
            assert(0i8.wrapping_sub(a) == wrap_i8(-(a as int))) by (bit_vector);
            assert(0i8.wrapping_sub(b) == wrap_i8(-(b as int))) by (bit_vector);
        }
        match orientation {
            Orientation::Clockwise => Vec2 { x: ny, y: self.x },
            Orientation::Widdershins => Vec2 { x: self.y, y: nx },
        }
    }

    /// `|x| + |y|`, wrapping round the 8-bit range.
    pub fn l1_norm(&self) -> (r: u8)
        ensures
            r as int == wrap_u8(abs_int(self.x as int) + abs_int(self.y as int)),
    {
        let ax: u8 = if self.x < 0 {
            (0i16 - self.x as i16) as u8
        } else {
            self.x as u8
        };
        let ay: u8 = if self.y < 0 {
            (0i16 - self.y as i16) as u8
        } else {
            self.y as u8
        };
        ax.wrapping_add(ay)
    }
}

} // verus!
