//! The angle type, its integer encoding and the conversions between encodings.

use vstd::prelude::*;
use vstd::arithmetic::div_mod::lemma_fundamental_div_mod_converse;

verus! {

/// The number of encodings in one full turn, `2^32`.
pub open spec fn full_turn() -> int {
    0x1_0000_0000
}

/// Half of [`full_turn`], `2^31`: the first encoding that reads as negative when signed.
pub open spec fn half_turn() -> int {
    0x8000_0000
}

/// Reduces any integer count of encodings into `[0, 2^32)`.
pub open spec fn wrap(x: int) -> int {
    x % full_turn()
}

/// Reads an encoding in `[0, 2^32)` as a two's-complement value in `[-2^31, 2^31)`.
pub open spec fn signed(v: int) -> int {
    if v < half_turn() {
        v
    } else {
        v - full_turn()
    }
}

/// A wrapping angle: `self.0 / 2^32` of a whole circle.
///
/// Every `u32` is a valid encoding and names exactly one angle, so two angles are equal
/// exactly when their encodings are.
#[derive(Clone, Copy, PartialEq, Eq, Structural)]
pub struct Angle(pub u32);

impl View for Angle {
    type V = int;

    /// The encoding as a mathematical integer in `[0, 2^32)`.
    open spec fn view(&self) -> int {
        self.0 as int
    }
}

impl Angle {
    /// Creates the angle that is `i / 2^32` of a whole circle.
    ///
    /// This takes an encoding, not a number of degrees or radians. It is the inverse of
    /// [`Angle::as_u32`] and reads back what that function gave for storage.
    pub fn from_u32(i: u32) -> (r: Angle)
        ensures
            r@ == i,
            r == Angle(i),
    {
        Angle(i)
    }

    /// Returns the encoding: the angle is `r / 2^32` of a whole circle.
    ///
    /// The encoding is the stored form of an angle. Where it is written out as bytes, write
    /// the four bytes of this value in little-endian order.
    pub fn as_u32(self) -> (r: u32)
        ensures
            r == self@,
            Angle(r) == self,
    {
        self.0
    }

    /// Creates an angle from a count of encodings that may exceed one turn, keeping the
    /// count modulo `2^32`.
    ///
    /// A fraction of a turn scaled by `2^32` and rounded can come out as `2^32` itself;
    /// widening to 64 bits first and reducing here sends that to the zero angle, where a
    /// conversion straight to 32 bits would stick at the largest encoding.
    pub fn from_u64(n: u64) -> (r: Angle)
        ensures
            r@ == wrap(n as int),
    {
        Angle((n % 0x1_0000_0000) as u32)
    }

    /// Creates an angle from a signed encoding: `i / 2^32` of a whole circle, where a
    /// negative `i` turns the other way.
    pub fn from_i32(i: i32) -> (r: Angle)
        ensures
            r@ == wrap(i as int),
            signed(r@) == i,
    {
        let v: u32 = if i >= 0 {
            i as u32
        } else {
            (i - i32::MIN) as u32 + 0x8000_0000
        };
        proof {
            if i >= 0 {
                lemma_fundamental_div_mod_converse(i as int, full_turn(), 0, v as int);
            } else {
                lemma_fundamental_div_mod_converse(i as int, full_turn(), -1, v as int);
            }
        }
        Angle(v)
    }

    /// Returns the encoding read as two's complement: the angle as a deviation in
    /// `[-2^31, 2^31)`, where the upper half of the circle counts as negative.
    pub fn as_i32(self) -> (r: i32)
        ensures
            r == signed(self@),
    {
        if self.0 < 0x8000_0000 {
            self.0 as i32
        } else {
            (self.0 - 0x8000_0000) as i32 + i32::MIN
        }
    }
}

} // verus!
