//! Rounding an angle to the nearest multiple of a unit angle.

use vstd::prelude::*;
use vstd::arithmetic::div_mod::lemma_fundamental_div_mod;
use vstd::arithmetic::div_mod::lemma_fundamental_div_mod_converse;
use vstd::arithmetic::div_mod::lemma_mod_multiples_basic;
use crate::angle::Angle;
use crate::angle::full_turn;
use crate::angle::wrap;

verus! {

/// The largest multiple of `unit` that is not above `v`.
pub open spec fn multiple_below(v: int, unit: int) -> int
    recommends
        unit > 0,
{
    v - v % unit
}

/// The multiple of `unit` nearest to `v`, the larger one where two are equally near.
///
/// `v` lies between `multiple_below(v, unit)` and the next multiple, one `unit` further.
/// The next one is taken when `v` is at least half a `unit` above the lower one. The
/// result is not reduced modulo a full turn: for `v` close below `2^32` it may be `2^32`
/// or more.
pub open spec fn nearest_multiple(v: int, unit: int) -> int
    recommends
        unit > 0,
{
    if 2 * (v % unit) >= unit {
        multiple_below(v, unit) + unit
    } else {
        multiple_below(v, unit)
    }
}

/// How far apart two integers are.
pub open spec fn distance(a: int, b: int) -> int {
    if a <= b {
        b - a
    } else {
        a - b
    }
}

/// The nearest multiple is a multiple: it is `unit` times the quotient `v / unit` or
/// times the quotient plus one.
pub proof fn lemma_nearest_multiple_is_multiple(v: int, unit: int)
    requires
        unit > 0,
    ensures
        multiple_below(v, unit) == (v / unit) * unit,
        nearest_multiple(v, unit) == (v / unit) * unit || nearest_multiple(v, unit) == (v / unit
            + 1) * unit,
        nearest_multiple(v, unit) % unit == 0,
{
    let q = v / unit;
    lemma_fundamental_div_mod(v, unit);
    assert(unit * q == q * unit && (q + 1) * unit == q * unit + unit) by (nonlinear_arith);
    lemma_mod_multiples_basic(q, unit);
    lemma_mod_multiples_basic(q + 1, unit);
}

/// No multiple of `unit` is nearer to `v` than the nearest multiple, which is at most
/// half a `unit` away.
pub proof fn lemma_nearest_multiple_is_nearest(v: int, unit: int, k: int)
    requires
        unit > 0,
    ensures
        distance(nearest_multiple(v, unit), v) <= distance(k * unit, v),
        2 * distance(nearest_multiple(v, unit), v) <= unit,
{
    let q = v / unit;
    lemma_nearest_multiple_is_multiple(v, unit);
    if k <= q {
        assert(k * unit <= q * unit) by (nonlinear_arith)
            requires
                k <= q,
                unit > 0,
        ;
    } else {
        assert(k * unit >= q * unit + unit) by (nonlinear_arith)
            requires
                k >= q + 1,
                unit > 0,
        ;
    }
}

/// A value exactly halfway between two neighbouring multiples of `unit` rounds to the
/// larger of the two.
pub proof fn lemma_tie_rounds_up(v: int, unit: int, k: int)
    requires
        unit > 0,
        v - k * unit == (k + 1) * unit - v,
    ensures
        nearest_multiple(v, unit) == (k + 1) * unit,
        nearest_multiple(v, unit) > v,
{
    let r = v - k * unit;
    assert((k + 1) * unit == k * unit + unit) by (nonlinear_arith);
    assert(2 * r == unit);
    lemma_fundamental_div_mod_converse(v, unit, k, r);
}

/// A multiple of `unit` rounds to itself.
pub proof fn lemma_multiple_rounds_to_itself(v: int, unit: int)
    requires
        unit > 0,
        v % unit == 0,
    ensures
        nearest_multiple(v, unit) == v,
{
}

/// Where `unit` divides the full turn, the rounded angle is a multiple of `unit` also
/// after wrapping: rounding up across the end of the circle lands on the zero angle.
pub proof fn lemma_round_by_divisor_of_turn(v: int, unit: int)
    requires
        unit > 0,
        0 <= v < full_turn(),
        full_turn() % unit == 0,
    ensures
        wrap(nearest_multiple(v, unit)) % unit == 0,
        nearest_multiple(v, unit) >= full_turn() ==> wrap(nearest_multiple(v, unit)) == 0,
{
    let n = nearest_multiple(v, unit);
    let q = v / unit;
    let turns = full_turn() / unit;
    lemma_nearest_multiple_is_multiple(v, unit);
    lemma_fundamental_div_mod(v, unit);
    lemma_fundamental_div_mod(full_turn(), unit);
    assert(full_turn() == turns * unit) by (nonlinear_arith)
        requires
            full_turn() == unit * turns + 0,
    ;
    assert(q * unit == unit * q) by (nonlinear_arith);
    assert(0 <= n <= v + unit);
    if n >= full_turn() {
        // n is a multiple of unit in [2^32, 2^32 + unit), and 2^32 is the only one there
        let j = if n == q * unit { q } else { q + 1 };
        assert(n == j * unit);
        assert(j == turns) by (nonlinear_arith)
            requires
                n == j * unit,
                full_turn() == turns * unit,
                full_turn() <= n < full_turn() + unit,
                unit > 0,
        ;
        lemma_fundamental_div_mod_converse(n, full_turn(), 1, 0);
        lemma_fundamental_div_mod_converse(0, unit, 0, 0);
    } else {
        lemma_fundamental_div_mod_converse(n, full_turn(), 0, n);
    }
}

impl Angle {
    /// Rounds the angle to the nearest multiple of `unit`, both read as unsigned encodings.
    ///
    /// Where two multiples are equally near, the larger one is taken. The multiple is found
    /// in the integers and then wrapped: an angle close below a full turn may round up to
    /// the full turn itself, which is the zero angle. A `unit` that does not divide the
    /// whole circle leaves a shorter last step before the wrap, so use divisors of the full
    /// turn (a right angle, say) where that matters.
    #[must_use]
    pub fn round(self, unit: Angle) -> (r: Angle)
        requires
            unit@ != 0,
        ensures
            r@ == wrap(nearest_multiple(self@, unit@)),
    {
        let v: u32 = self.as_u32();
        let u: u32 = unit.as_u32();
        let times: u32 = v / u;
        proof {
            lemma_fundamental_div_mod(v as int, u as int);
        }
        let min: u32 = u * times;
        let max: u64 = min as u64 + u as u64;
        let rounded: u32 = if max - v as u64 <= (v - min) as u64 {
            proof {
                if max >= full_turn() {
                    lemma_fundamental_div_mod_converse(max as int, full_turn(), 1, max - full_turn());
                } else {
                    lemma_fundamental_div_mod_converse(max as int, full_turn(), 0, max as int);
                }
            }
            (max % 0x1_0000_0000) as u32
        } else {
            proof {
                lemma_fundamental_div_mod_converse(min as int, full_turn(), 0, min as int);
            }
            min
        };
        Angle::from_u32(rounded)
    }
}

} // verus!
