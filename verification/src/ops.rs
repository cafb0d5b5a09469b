//! The arithmetic operators on angles: every one of them wraps modulo a full turn.
//!
//! Each operator is an impl of the `core::ops` trait, so `a + b`, `a - b`, `-a`, `a % b`,
//! `a * k`, `a / k`, `a += b` and `a -= b` all work in compiled code. In verified code
//! write the binary operators as they are and call `neg`, `add_assign` and `sub_assign`
//! by name.

use vstd::prelude::*;
use vstd::arithmetic::div_mod::lemma_div_is_ordered_by_denominator;
use vstd::arithmetic::div_mod::lemma_div_nonincreasing;
use vstd::arithmetic::div_mod::lemma_div_pos_is_pos;
use vstd::arithmetic::div_mod::lemma_fundamental_div_mod_converse;
use crate::angle::Angle;
use crate::angle::full_turn;
use crate::angle::half_turn;
use crate::angle::signed;
use crate::angle::wrap;

verus! {

/// The absolute value of an integer.
pub open spec fn magnitude(x: int) -> int {
    if x < 0 {
        -x
    } else {
        x
    }
}

/// Division that rounds toward zero, as machine integers divide: the quotient of the
/// magnitudes, negative where exactly one of the operands is.
pub open spec fn truncating_quotient(x: int, d: int) -> int
    recommends
        d != 0,
{
    let q = magnitude(x) / magnitude(d);
    if (x < 0) == (d < 0) {
        q
    } else {
        -q
    }
}

/// Dividing by a negative `d` gives the negated quotient of dividing by `-d`.
proof fn lemma_div_by_negative(x: int, d: int)
    requires
        d < 0,
    ensures
        x / d == -(x / (-d)),
{
    let p = -d;
    let q = x / p;
    let r = x % p;
    let q2 = x / d;
    let r2 = x % d;
    assert(x == p * q + r && 0 <= r < p && x == d * q2 + r2 && 0 <= r2 < p)
        by (nonlinear_arith)
        requires
            d < 0,
            p == -d,
            q == x / p,
            r == x % p,
            q2 == x / d,
            r2 == x % d,
    ;
    assert(q2 == -q) by (nonlinear_arith)
        requires
            p == -d,
            x == p * q + r && 0 <= r < p && x == d * q2 + r2 && 0 <= r2 < p,
    ;
}

/// The quotient rounded toward zero, written with the flooring division of the integers.
proof fn lemma_truncating_quotient_by_floor(x: int, d: int)
    requires
        d != 0,
    ensures
        truncating_quotient(x, d) == if x >= 0 {
            x / d
        } else {
            -((-x) / d)
        },
{
    if d < 0 {
        lemma_div_by_negative(magnitude(x), d);
    }
}

/// Dividing never grows the magnitude, so the quotient of two 32-bit values fits in 32
/// bits again, but for the least value divided by `-1`.
proof fn lemma_truncating_quotient_fits(x: int, d: int)
    requires
        -half_turn() <= x < half_turn(),
        d != 0,
        !(x == -half_turn() && d == -1),
    ensures
        -half_turn() <= truncating_quotient(x, d) < half_turn(),
{
    let m = magnitude(x);
    let p = magnitude(d);
    lemma_div_nonincreasing(m, p);
    lemma_div_pos_is_pos(m, p);
    if m == half_turn() && p >= 2 {
        lemma_div_is_ordered_by_denominator(m, 2, p);
    }
}

impl core::ops::Add for Angle {
    type Output = Angle;

    /// The sum of two angles, wrapped into one turn.
    fn add(self, rhs: Angle) -> (r: Angle)
        ensures
            r@ == wrap(self@ + rhs@),
    {
        let sum: u32 = self.0.wrapping_add(rhs.0);
        proof {
            if self.0 + rhs.0 >= full_turn() {
                lemma_fundamental_div_mod_converse(self.0 + rhs.0, full_turn(), 1, sum as int);
            } else {
                lemma_fundamental_div_mod_converse(self.0 + rhs.0, full_turn(), 0, sum as int);
            }
        }
        Angle(sum)
    }
}

impl vstd::std_specs::ops::AddSpecImpl for Angle {
    open spec fn obeys_add_spec() -> bool {
        true
    }

    open spec fn add_req(self, rhs: Angle) -> bool {
        true
    }

    open spec fn add_spec(self, rhs: Angle) -> Angle {
        Angle(wrap(self@ + rhs@) as u32)
    }
}

impl core::ops::Sub for Angle {
    type Output = Angle;

    /// The difference of two angles, wrapped into one turn.
    fn sub(self, rhs: Angle) -> (r: Angle)
        ensures
            r@ == wrap(self@ - rhs@),
    {
        let diff: u32 = self.0.wrapping_sub(rhs.0);
        proof {
            if self.0 - rhs.0 < 0 {
                lemma_fundamental_div_mod_converse(self.0 - rhs.0, full_turn(), -1, diff as int);
            } else {
                lemma_fundamental_div_mod_converse(self.0 - rhs.0, full_turn(), 0, diff as int);
            }
        }
        Angle(diff)
    }
}

impl vstd::std_specs::ops::SubSpecImpl for Angle {
    open spec fn obeys_sub_spec() -> bool {
        true
    }

    open spec fn sub_req(self, rhs: Angle) -> bool {
        true
    }

    open spec fn sub_spec(self, rhs: Angle) -> Angle {
        Angle(wrap(self@ - rhs@) as u32)
    }
}

impl core::ops::Neg for Angle {
    type Output = Angle;

    /// The same angle measured in the opposite direction of rotation.
    fn neg(self) -> (r: Angle)
        ensures
            r@ == wrap(-self@),
    {
        let zero: u32 = 0;
        let diff: u32 = zero.wrapping_sub(self.0);
        proof {
            if self.0 > 0 {
                lemma_fundamental_div_mod_converse(-self@, full_turn(), -1, diff as int);
            } else {
                lemma_fundamental_div_mod_converse(-self@, full_turn(), 0, diff as int);
            }
        }
        Angle(diff)
    }
}

impl vstd::std_specs::ops::NegSpecImpl for Angle {
    open spec fn obeys_neg_spec() -> bool {
        true
    }

    open spec fn neg_req(self) -> bool {
        true
    }

    open spec fn neg_spec(self) -> Angle {
        Angle(wrap(-self@) as u32)
    }
}

impl core::ops::AddAssign for Angle {
    /// Adds `rhs` to this angle in place, wrapping into one turn.
    fn add_assign(&mut self, rhs: Angle)
        ensures
            final(self)@ == wrap(old(self)@ + rhs@),
    {
        *self = *self + rhs;
    }
}

impl core::ops::SubAssign for Angle {
    /// Subtracts `rhs` from this angle in place, wrapping into one turn.
    fn sub_assign(&mut self, rhs: Angle)
        ensures
            final(self)@ == wrap(old(self)@ - rhs@),
    {
        *self = *self - rhs;
    }
}

impl core::ops::Rem for Angle {
    type Output = Angle;

    /// The remainder of this angle's encoding by that of `rhs`: the phase of the angle
    /// within a step of `rhs`. The step must not be the zero angle.
    fn rem(self, rhs: Angle) -> (r: Angle)
        ensures
            r@ == self@ % rhs@,
    {
        Angle(self.0 % rhs.0)
    }
}

impl vstd::std_specs::ops::RemSpecImpl for Angle {
    open spec fn obeys_rem_spec() -> bool {
        true
    }

    open spec fn rem_req(self, rhs: Angle) -> bool {
        rhs@ != 0
    }

    open spec fn rem_spec(self, rhs: Angle) -> Angle {
        Angle((self@ % rhs@) as u32)
    }
}

impl core::ops::Mul<u32> for Angle {
    type Output = Angle;

    /// The angle taken `rhs` times, wrapped into one turn: how many turns were passed is
    /// not kept.
    fn mul(self, rhs: u32) -> (r: Angle)
        ensures
            r@ == wrap(self@ * rhs),
    {
        Angle(self.0.wrapping_mul(rhs))
    }
}

impl vstd::std_specs::ops::MulSpecImpl<u32> for Angle {
    open spec fn obeys_mul_spec() -> bool {
        true
    }

    open spec fn mul_req(self, rhs: u32) -> bool {
        true
    }

    open spec fn mul_spec(self, rhs: u32) -> Angle {
        Angle(wrap(self@ * rhs) as u32)
    }
}

impl core::ops::Div<i32> for Angle {
    type Output = Angle;

    /// The angle divided by a non-zero integer.
    ///
    /// The angle is read as signed, so one in the upper half of the circle is negative
    /// before it is divided, and the quotient is rounded toward zero: dividing loses up to
    /// one encoding step, and `(a * k) / k` need not give `a` back. Dividing the half turn
    /// by `-1` gives the half turn, the quotient wrapped like every other result.
    fn div(self, rhs: i32) -> (r: Angle)
        ensures
            r@ == wrap(truncating_quotient(signed(self@), rhs as int)),
    {
        let a: i32 = self.as_i32();
        if a == i32::MIN && rhs == -1 {
            proof {
                assert(magnitude(rhs as int) == 1 && magnitude(signed(self@)) == half_turn());
                lemma_fundamental_div_mod_converse(half_turn(), full_turn(), 0, half_turn());
            }
            self
        } else {
            proof {
                lemma_truncating_quotient_by_floor(a as int, rhs as int);
                lemma_truncating_quotient_fits(a as int, rhs as int);
            }
            Angle::from_i32(a / rhs)
        }
    }
}

impl vstd::std_specs::ops::DivSpecImpl<i32> for Angle {
    open spec fn obeys_div_spec() -> bool {
        true
    }

    open spec fn div_req(self, rhs: i32) -> bool {
        rhs != 0
    }

    open spec fn div_spec(self, rhs: i32) -> Angle {
        Angle(wrap(truncating_quotient(signed(self@), rhs as int)) as u32)
    }
}

} // verus!
