//! Algebraic laws of the angle arithmetic, proved from the operators' specifications.

use vstd::prelude::*;
use vstd::arithmetic::div_mod::lemma_div_by_multiple;
use vstd::arithmetic::div_mod::lemma_div_pos_is_pos;
use vstd::arithmetic::div_mod::lemma_fundamental_div_mod;
use vstd::arithmetic::div_mod::lemma_fundamental_div_mod_converse;
use vstd::arithmetic::div_mod::lemma_mod_multiples_vanish;
use vstd::std_specs::ops::AddSpec;
use vstd::std_specs::ops::DivSpec;
use vstd::std_specs::ops::MulSpec;
use vstd::std_specs::ops::NegSpec;
use vstd::std_specs::ops::SubSpec;
use crate::angle::Angle;
use crate::angle::full_turn;
use crate::angle::half_turn;
use crate::angle::signed;
use crate::angle::wrap;
use crate::ops::magnitude;
use crate::ops::truncating_quotient;

verus! {

/// An integer already in `[0, 2^32)` is its own reduction.
pub proof fn lemma_wrap_of_encoding(v: int)
    requires
        0 <= v < full_turn(),
    ensures
        wrap(v) == v,
{
    lemma_fundamental_div_mod_converse(v, full_turn(), 0, v);
}

/// Whole turns do not change an angle: the reduction has period `2^32`.
pub proof fn lemma_wrap_periodic(x: int, turns: int)
    ensures
        wrap(x + turns * full_turn()) == wrap(x),
{
    assert(x + turns * full_turn() == full_turn() * turns + x) by (nonlinear_arith);
    lemma_mod_multiples_vanish(turns, x, full_turn());
}

/// Reading an encoding as signed and wrapping it again gives the encoding back.
pub proof fn lemma_wrap_of_signed(a: Angle)
    ensures
        wrap(signed(a@)) == a@,
{
    if a@ < half_turn() {
        lemma_fundamental_div_mod_converse(signed(a@), full_turn(), 0, a@);
    } else {
        lemma_fundamental_div_mod_converse(signed(a@), full_turn(), -1, a@);
    }
}

/// A signed value that fits in 32 bits is read back unchanged from its wrapped form.
pub proof fn lemma_signed_of_wrap(i: int)
    requires
        -half_turn() <= i < half_turn(),
    ensures
        signed(wrap(i)) == i,
{
    if i >= 0 {
        lemma_fundamental_div_mod_converse(i, full_turn(), 0, i);
    } else {
        lemma_fundamental_div_mod_converse(i, full_turn(), -1, i + full_turn());
    }
}

/// The zero angle is the identity of addition: `a + 0 == a`.
pub proof fn lemma_add_zero(a: Angle)
    ensures
        wrap(a@ + 0) == a@,
        a.add_spec(Angle(0)) == a,
        Angle(0).add_spec(a) == a,
{
    lemma_wrap_of_encoding(a@);
}

/// An angle and its negation add up to the zero angle: `a + (-a) == 0`.
pub proof fn lemma_add_negation(a: Angle)
    ensures
        wrap(a@ + wrap(-a@)) == 0,
        a.add_spec(a.neg_spec()) == Angle(0),
{
    if a@ == 0 {
        lemma_fundamental_div_mod_converse(-a@, full_turn(), 0, 0);
        lemma_fundamental_div_mod_converse(0, full_turn(), 0, 0);
    } else {
        lemma_fundamental_div_mod_converse(-a@, full_turn(), -1, full_turn() - a@);
        lemma_fundamental_div_mod_converse(full_turn(), full_turn(), 1, 0);
    }
}

/// Negation is subtraction from the zero angle: `-a == 0 - a`.
pub proof fn lemma_negation_is_zero_minus(a: Angle)
    ensures
        a.neg_spec() == Angle(0).sub_spec(a),
{
}

/// Subtraction undoes addition exactly: `(a + b) - b == a`.
pub proof fn lemma_add_then_sub(a: Angle, b: Angle)
    ensures
        wrap(wrap(a@ + b@) - b@) == a@,
        a.add_spec(b).sub_spec(b) == a,
{
    let sum = a@ + b@;
    if sum >= full_turn() {
        lemma_fundamental_div_mod_converse(sum, full_turn(), 1, sum - full_turn());
        lemma_fundamental_div_mod_converse(sum - full_turn() - b@, full_turn(), -1, a@);
    } else {
        lemma_fundamental_div_mod_converse(sum, full_turn(), 0, sum);
        lemma_fundamental_div_mod_converse(sum - b@, full_turn(), 0, a@);
    }
}

/// Addition undoes subtraction exactly: `(a - b) + b == a`.
pub proof fn lemma_sub_then_add(a: Angle, b: Angle)
    ensures
        wrap(wrap(a@ - b@) + b@) == a@,
        a.sub_spec(b).add_spec(b) == a,
{
    let diff = a@ - b@;
    if diff < 0 {
        lemma_fundamental_div_mod_converse(diff, full_turn(), -1, diff + full_turn());
        lemma_fundamental_div_mod_converse(diff + full_turn() + b@, full_turn(), 1, a@);
    } else {
        lemma_fundamental_div_mod_converse(diff, full_turn(), 0, diff);
        lemma_fundamental_div_mod_converse(diff + b@, full_turn(), 0, a@);
    }
}

/// Multiplying by `k` wraps exactly as multiplying the signed reading does.
pub proof fn lemma_mul_of_signed(a: Angle, k: int)
    ensures
        wrap(a@ * k) == wrap(signed(a@) * k),
{
    let s = signed(a@);
    if a@ < half_turn() {
    } else {
        assert(a@ * k == full_turn() * k + s * k) by (nonlinear_arith)
            requires
                a@ == s + full_turn(),
        ;
        lemma_mod_multiples_vanish(k, s * k, full_turn());
    }
}

/// Scalar division undoes scalar multiplication as long as the product, read as signed,
/// stays within half a turn to either side: `(a * k) / k == a`.
///
/// Beyond that range the product has wrapped and the quotient is that of another angle.
pub proof fn lemma_mul_then_div(a: Angle, k: i32)
    requires
        k > 0,
        -half_turn() <= signed(a@) * k < half_turn(),
    ensures
        wrap(truncating_quotient(signed(wrap(a@ * k)), k as int)) == a@,
        a.mul_spec(k as u32).div_spec(k) == a,
{
    let s = signed(a@);
    let p = s * k;
    lemma_mul_of_signed(a, k as int);
    lemma_signed_of_wrap(p);
    lemma_wrap_of_signed(a);
    assert(signed(wrap(a@ * k)) == p);
    let m = magnitude(s);
    assert(magnitude(p) == m * k && (p < 0 <==> s < 0)) by (nonlinear_arith)
        requires
            p == s * k,
            k > 0,
            m == magnitude(s),
    ;
    lemma_div_by_multiple(m, k as int);
    assert(truncating_quotient(p, k as int) == s);
}

/// Dividing by `k` and multiplying by `k` again loses less than `k` encoding steps, and
/// never moves the angle away from zero: with `s` the signed reading of `a` and `t` that
/// of `(a / k) * k`, `t` lies between zero and `s` and `|s - t| < k`.
pub proof fn lemma_div_then_mul(a: Angle, k: i32)
    requires
        k > 0,
    ensures
        ({
            let back = a.div_spec(k).mul_spec(k as u32);
            &&& magnitude(signed(a@) - signed(back@)) < k
            &&& magnitude(signed(back@)) <= magnitude(signed(a@))
            &&& signed(a@) >= 0 ==> signed(back@) >= 0
            &&& signed(a@) <= 0 ==> signed(back@) <= 0
        }),
{
    let s = signed(a@);
    let m = magnitude(s);
    let q = truncating_quotient(s, k as int);
    lemma_fundamental_div_mod(m, k as int);
    lemma_div_pos_is_pos(m, k as int);
    let t = q * k;
    assert(magnitude(t) == (m / (k as int)) * k && (s >= 0 ==> t >= 0) && (s < 0 ==> t <= 0))
        by (nonlinear_arith)
        requires
            t == q * k,
            k > 0,
            m / (k as int) >= 0,
            q == if s < 0 {
                -(m / (k as int))
            } else {
                m / (k as int)
            },
    ;
    assert((m / (k as int)) * k == k * (m / (k as int))) by (nonlinear_arith);
    assert(magnitude(t) <= m);
    assert(-half_turn() <= q < half_turn()) by (nonlinear_arith)
        requires
            magnitude(q * k) <= m,
            m <= half_turn(),
            k > 0,
            s >= 0 ==> q >= 0,
            s < 0 ==> q <= 0,
            s < half_turn(),
            m == magnitude(s),
    ;
    let qa = Angle(wrap(q) as u32);
    lemma_signed_of_wrap(q);
    assert(signed(qa@) == q);
    lemma_mul_of_signed(qa, k as int);
    lemma_signed_of_wrap(t);
    assert(a.div_spec(k) == qa);
    assert(signed(a.div_spec(k).mul_spec(k as u32)@) == t);
}

} // verus!
