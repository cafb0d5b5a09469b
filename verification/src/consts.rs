//! Named angles: zero and the common fractions of a turn.

use vstd::prelude::*;
use crate::angle::Angle;
use crate::angle::full_turn;
use crate::rounding::distance;

verus! {

/// The encoding of the zero angle.
pub const ZERO: u32 = 0;

/// The encoding nearest to a twelfth of a turn (30 degrees).
pub const TWELVTH: u32 = 357913941;

/// The encoding of an eighth of a turn (45 degrees).
pub const EIGHTH: u32 = 0x2000_0000;

/// The encoding nearest to a sixth of a turn (60 degrees).
pub const SIXTH: u32 = 715827883;

/// The encoding of a quarter of a turn (90 degrees).
pub const QUARTER: u32 = 0x4000_0000;

/// The encoding nearest to a third of a turn (120 degrees).
pub const THIRD: u32 = 1431655765;

/// The encoding of half a turn (180 degrees).
pub const HALF: u32 = 0x8000_0000;

/// The encoding of three quarters of a turn (270 degrees).
pub const COUN: u32 = 0xc000_0000;

/// Whether `c` is an encoding nearest to the fraction `num / den` of a turn: `c / 2^32`
/// is at most half an encoding step away from `num / den`.
pub open spec fn is_nearest_encoding(c: int, num: int, den: int) -> bool
    recommends
        den > 0,
{
    2 * distance(den * c, num * full_turn()) <= den
}

/// Each named angle is the encoding nearest to the fraction of a turn that it is named
/// after, and so less than one encoding step away from it.
pub proof fn lemma_named_angles_are_nearest()
    ensures
        is_nearest_encoding(ZERO as int, 0, 1),
        is_nearest_encoding(TWELVTH as int, 1, 12),
        is_nearest_encoding(EIGHTH as int, 1, 8),
        is_nearest_encoding(SIXTH as int, 1, 6),
        is_nearest_encoding(QUARTER as int, 1, 4),
        is_nearest_encoding(THIRD as int, 1, 3),
        is_nearest_encoding(HALF as int, 1, 2),
        is_nearest_encoding(COUN as int, 3, 4),
{
}

impl Angle {
    /// An angle of zero size.
    pub fn zero() -> (r: Angle)
        ensures
            r == Angle(ZERO),
            r@ == 0,
    {
        Angle(ZERO)
    }

    /// The angle nearest to a twelfth of a turn (30 degrees).
    pub fn twelvth() -> (r: Angle)
        ensures
            r == Angle(TWELVTH),
            r@ == 357913941,
    {
        Angle(TWELVTH)
    }

    /// An eighth of a turn (45 degrees).
    pub fn eighth() -> (r: Angle)
        ensures
            r == Angle(EIGHTH),
            r@ == 0x2000_0000,
    {
        Angle(EIGHTH)
    }

    /// The angle nearest to a sixth of a turn (60 degrees).
    pub fn sixth() -> (r: Angle)
        ensures
            r == Angle(SIXTH),
            r@ == 715827883,
    {
        Angle(SIXTH)
    }

    /// A quarter of a turn (90 degrees).
    pub fn quarter() -> (r: Angle)
        ensures
            r == Angle(QUARTER),
            r@ == 0x4000_0000,
    {
        Angle(QUARTER)
    }

    /// The angle nearest to a third of a turn (120 degrees).
    pub fn third() -> (r: Angle)
        ensures
            r == Angle(THIRD),
            r@ == 1431655765,
    {
        Angle(THIRD)
    }

    /// Half a turn (180 degrees).
    pub fn half() -> (r: Angle)
        ensures
            r == Angle(HALF),
            r@ == 0x8000_0000,
    {
        Angle(HALF)
    }

    /// Three quarters of a turn (270 degrees).
    pub fn coun() -> (r: Angle)
        ensures
            r == Angle(COUN),
            r@ == 0xc000_0000,
    {
        Angle(COUN)
    }
}

} // verus!
