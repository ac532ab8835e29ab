//! Two-component fixed-point vectors.
//!
//! A `V2` serves as a position, a velocity, a field vector or a traced
//! point. The partial operations mirror the scalar ones: `None` stands
//! for a value that left the representable range.

use vstd::prelude::*;
use crate::fx::{
    ONE, fits, chk, mag, tdiv, fx_add, fx_mul, abs64, sqrt_n, isqrt, tdiv_i128,
    lemma_mul_mag, lemma_mul_sign, lemma_tdiv_sign_mag, lemma_sqrt_n, lemma_mag_div_ordered,
};
use vstd::arithmetic::mul::{lemma_mul_upper_bound, lemma_mul_inequality};
use vstd::arithmetic::div_mod::{
    lemma_div_pos_is_pos, lemma_div_nonincreasing, lemma_div_multiples_vanish,
};

verus! {

/// A point or vector in the plane.
#[derive(Clone, Copy, PartialEq, Eq, Structural, Debug)]
pub struct V2 {
    pub x: i64,
    pub y: i64,
}

/// Checked construction from two mathematical integers.
pub open spec fn s_v(x: int, y: int) -> Option<V2> {
    if fits(x) && fits(y) {
        Some(V2 { x: x as i64, y: y as i64 })
    } else {
        None
    }
}

pub open spec fn s_vadd(a: V2, b: V2) -> Option<V2> {
    s_v(a.x + b.x, a.y + b.y)
}

pub open spec fn s_vsub(a: V2, b: V2) -> Option<V2> {
    s_v(a.x - b.x, a.y - b.y)
}

pub open spec fn s_vneg(a: V2) -> Option<V2> {
    s_v(-a.x, -a.y)
}

/// The quarter-turn counter-clockwise rotation.
pub open spec fn s_vperp(a: V2) -> Option<V2> {
    s_v(-a.y, a.x as int)
}

/// Both components scaled by the fixed-point factor `s`.
pub open spec fn s_vscale(a: V2, s: i64) -> Option<V2> {
    s_v(tdiv(a.x * s, ONE as int), tdiv(a.y * s, ONE as int))
}

/// The sum of the squared components, in raw (unscaled) units.
pub open spec fn s_sq_sum(a: V2) -> int {
    a.x * a.x + a.y * a.y
}

/// The squared length as a fixed-point scalar.
pub open spec fn s_vlen_sq(a: V2) -> Option<i64> {
    chk(s_sq_sum(a) / (ONE as int))
}

/// The length as a fixed-point scalar: the floor square root of the sum
/// of squares of the raw components.
pub open spec fn s_vlen(a: V2) -> Option<i64> {
    chk(sqrt_n(s_sq_sum(a) as nat) as int)
}

/// The dot product as a fixed-point scalar.
pub open spec fn s_vdot(a: V2, b: V2) -> Option<i64> {
    chk(tdiv(a.x * b.x + a.y * b.y, ONE as int))
}

/// The unit vector with `a`'s direction; `None` only for a length of zero.
pub open spec fn s_vnorm(a: V2) -> Option<V2> {
    let len = sqrt_n(s_sq_sum(a) as nat) as int;
    if len == 0 {
        None
    } else {
        s_v(tdiv(a.x * (ONE as int), len), tdiv(a.y * (ONE as int), len))
    }
}

/// Components divided by a positive count (for the mean of positions).
pub open spec fn s_vdivn(a: V2, n: int) -> V2 {
    V2 { x: tdiv(a.x as int, n) as i64, y: tdiv(a.y as int, n) as i64 }
}

/// Per-component fixed-point division by the scalar `d`.
pub open spec fn s_vdivs(a: V2, d: i64) -> Option<V2> {
    match (crate::fx::s_div(a.x, d), crate::fx::s_div(a.y, d)) {
        (Some(x), Some(y)) => Some(V2 { x, y }),
        _ => None,
    }
}

/// Lifted vector addition: `None` absorbs.
pub open spec fn ov_add(a: Option<V2>, b: Option<V2>) -> Option<V2> {
    match (a, b) {
        (Some(u), Some(v)) => s_vadd(u, v),
        _ => None,
    }
}

/// Lifted vector subtraction: `None` absorbs.
pub open spec fn ov_sub(a: Option<V2>, b: Option<V2>) -> Option<V2> {
    match (a, b) {
        (Some(u), Some(v)) => s_vsub(u, v),
        _ => None,
    }
}

/// Lifted negation.
pub open spec fn ov_neg(a: Option<V2>) -> Option<V2> {
    match a {
        Some(u) => s_vneg(u),
        None => None,
    }
}

/// Lifted quarter-turn rotation.
pub open spec fn ov_perp(a: Option<V2>) -> Option<V2> {
    match a {
        Some(u) => s_vperp(u),
        None => None,
    }
}

/// Lifted scaling by a lifted fixed-point scalar.
pub open spec fn ov_scale(a: Option<V2>, s: Option<i64>) -> Option<V2> {
    match (a, s) {
        (Some(u), Some(k)) => s_vscale(u, k),
        _ => None,
    }
}

/// Lifted per-component division by a lifted scalar.
pub open spec fn ov_divs(a: Option<V2>, s: Option<i64>) -> Option<V2> {
    match (a, s) {
        (Some(u), Some(k)) => s_vdivs(u, k),
        _ => None,
    }
}

/// Lifted squared length.
pub open spec fn o_len_sq(a: Option<V2>) -> Option<i64> {
    match a {
        Some(u) => s_vlen_sq(u),
        None => None,
    }
}

/// Lifted length.
pub open spec fn o_len(a: Option<V2>) -> Option<i64> {
    match a {
        Some(u) => s_vlen(u),
        None => None,
    }
}

/// Lifted normalization.
pub open spec fn ov_norm(a: Option<V2>) -> Option<V2> {
    match a {
        Some(u) => s_vnorm(u),
        None => None,
    }
}

/// Lifted dot product.
pub open spec fn o_dot(a: Option<V2>, b: Option<V2>) -> Option<i64> {
    match (a, b) {
        (Some(u), Some(v)) => s_vdot(u, v),
        _ => None,
    }
}

/// Per-component truncating halving, total.
pub open spec fn s_vhalf(a: V2) -> V2 {
    V2 { x: tdiv(a.x as int, 2) as i64, y: tdiv(a.y as int, 2) as i64 }
}

/// Lifted per-component halving.
pub open spec fn ov_halfv(a: Option<V2>) -> Option<V2> {
    match a {
        Some(u) => Some(s_vhalf(u)),
        None => None,
    }
}

/// Two lifted scalars packed as a lifted vector.
pub open spec fn ov_pack(x: Option<i64>, y: Option<i64>) -> Option<V2> {
    match (x, y) {
        (Some(a), Some(b)) => Some(V2 { x: a, y: b }),
        _ => None,
    }
}

/// Squares are non-negative.
pub proof fn lemma_square_nonneg(x: int)
    ensures
        x * x >= 0,
        x * x == mag(x) * mag(x),
{
    lemma_mul_sign(x, x);
    lemma_mul_mag(x, x);
}

/// The quarter-turn rotation is orthogonal to its argument: the
/// isopotential tracer's direction, the rotated field, is perpendicular
/// to the potential's gradient.
pub proof fn lemma_perp_orthogonal(u: V2)
    ensures
        s_vperp(u) matches Some(w) ==> s_vdot(w, u) == Some(0i64),
{
    if s_vperp(u) is Some {
        let w = s_vperp(u)->0;
        assert(w.x as int == -(u.y as int) && w.y == u.x);
        assert((w.x as int) * u.x + (w.y as int) * u.y == 0) by {
            vstd::arithmetic::mul::lemma_mul_unary_negation(u.y as int, u.x as int);
            vstd::arithmetic::mul::lemma_mul_is_commutative(u.x as int, u.y as int);
        }
    }
}

/// Each component's magnitude is at most the vector's length.
pub proof fn lemma_comp_le_len(x: int, y: int)
    ensures
        mag(x) <= sqrt_n((x * x + y * y) as nat),
        mag(y) <= sqrt_n((x * x + y * y) as nat),
{
    lemma_square_nonneg(x);
    lemma_square_nonneg(y);
    let n = (x * x + y * y) as nat;
    lemma_sqrt_n(n);
    let r = sqrt_n(n) as int;
    if mag(x) > r {
        assert((r + 1) * (r + 1) <= mag(x) * mag(x)) by (nonlinear_arith)
            requires
                0 <= r + 1 <= mag(x),
        {
        }
        assert(false);
    }
    if mag(y) > r {
        assert((r + 1) * (r + 1) <= mag(y) * mag(y)) by (nonlinear_arith)
            requires
                0 <= r + 1 <= mag(y),
        {
        }
        assert(false);
    }
}

pub fn v_add(a: V2, b: V2) -> (r: Option<V2>)
    ensures
        r == s_vadd(a, b),
{
    match (fx_add(a.x, b.x), fx_add(a.y, b.y)) {
        (Some(x), Some(y)) => Some(V2 { x, y }),
        _ => None,
    }
}

pub fn v_sub(a: V2, b: V2) -> (r: Option<V2>)
    ensures
        r == s_vsub(a, b),
{
    match (a.x.checked_sub(b.x), a.y.checked_sub(b.y)) {
        (Some(x), Some(y)) => Some(V2 { x, y }),
        _ => None,
    }
}

pub fn v_neg(a: V2) -> (r: Option<V2>)
    ensures
        r == s_vneg(a),
{
    if a.x == i64::MIN || a.y == i64::MIN {
        None
    } else {
        Some(V2 { x: -a.x, y: -a.y })
    }
}

pub fn v_perp(a: V2) -> (r: Option<V2>)
    ensures
        r == s_vperp(a),
{
    if a.y == i64::MIN {
        None
    } else {
        Some(V2 { x: -a.y, y: a.x })
    }
}

pub fn v_scale(a: V2, s: i64) -> (r: Option<V2>)
    ensures
        r == s_vscale(a, s),
{
    match (fx_mul(a.x, s), fx_mul(a.y, s)) {
        (Some(x), Some(y)) => Some(V2 { x, y }),
        _ => None,
    }
}

/// The raw (unscaled) sum of squares, exact in `u128`.
fn sq_sum_raw(a: V2) -> (r: u128)
    ensures
        r == s_sq_sum(a),
{
    let mx: u64 = abs64(a.x);
    let my: u64 = abs64(a.y);
    proof {
        lemma_mul_upper_bound(mx as int, 0x8000_0000_0000_0000, mx as int, 0x8000_0000_0000_0000);
        lemma_mul_upper_bound(my as int, 0x8000_0000_0000_0000, my as int, 0x8000_0000_0000_0000);
        lemma_square_nonneg(a.x as int);
        lemma_square_nonneg(a.y as int);
    }
    (mx as u128) * (mx as u128) + (my as u128) * (my as u128)
}

pub fn v_len_sq(a: V2) -> (r: Option<i64>)
    ensures
        r == s_vlen_sq(a),
{
    let m: u128 = sq_sum_raw(a);
    let q: u128 = m / 65536;
    proof {
        lemma_div_pos_is_pos(m as int, 65536);
        lemma_div_nonincreasing(m as int, 65536);
    }
    if q > 0x7fff_ffff_ffff_ffff {
        None
    } else {
        Some(q as i64)
    }
}

pub fn v_len(a: V2) -> (r: Option<i64>)
    ensures
        r == s_vlen(a),
{
    let m: u128 = sq_sum_raw(a);
    let l: u64 = isqrt(m);
    if l > 0x7fff_ffff_ffff_ffff {
        None
    } else {
        Some(l as i64)
    }
}

pub fn v_dot(a: V2, b: V2) -> (r: Option<i64>)
    ensures
        r == s_vdot(a, b),
{
    proof {
        lemma_mul_upper_bound(mag(a.x as int), 0x8000_0000_0000_0000, mag(b.x as int), 0x8000_0000_0000_0000);
        lemma_mul_upper_bound(mag(a.y as int), 0x8000_0000_0000_0000, mag(b.y as int), 0x8000_0000_0000_0000);
        lemma_mul_mag(a.x as int, b.x as int);
        lemma_mul_mag(a.y as int, b.y as int);
    }
    let px: i128 = (a.x as i128) * (b.x as i128);
    let py: i128 = (a.y as i128) * (b.y as i128);
    match px.checked_add(py) {
        Some(p) if p == i128::MIN => {
            proof {
                let s = (a.x as int) * (b.x as int) + (a.y as int) * (b.y as int);
                lemma_tdiv_sign_mag(s, 65536);
                lemma_mag_div_ordered(
                    0x8000_0000_0000_0000_0000_0000_0000_0000,
                    mag(s),
                    65536,
                );
            }
            None
        }
        Some(p) => {
            let q: i128 = tdiv_i128(p, 65536);
            if q > 0x7fff_ffff_ffff_ffff || q < -0x8000_0000_0000_0000 {
                None
            } else {
                Some(q as i64)
            }
        }
        None => {
            proof {
                let s = (a.x as int) * (b.x as int) + (a.y as int) * (b.y as int);
                assert(mag(s) >= 0x8000_0000_0000_0000_0000_0000_0000_0000);
                lemma_tdiv_sign_mag(s, 65536);
                lemma_mag_div_ordered(
                    0x8000_0000_0000_0000_0000_0000_0000_0000,
                    mag(s),
                    65536,
                );
            }
            None
        }
    }
}

pub fn v_norm(a: V2) -> (r: Option<V2>)
    ensures
        r == s_vnorm(a),
        r matches Some(u) ==> mag(u.x as int) <= ONE as int && mag(u.y as int) <= ONE as int,
{
    let m: u128 = sq_sum_raw(a);
    let l: u64 = isqrt(m);
    if l == 0 {
        return None;
    }
    proof {
        lemma_comp_le_len(a.x as int, a.y as int);
        lemma_mul_mag(a.x as int, ONE as int);
        lemma_mul_mag(a.y as int, ONE as int);
        lemma_tdiv_sign_mag((a.x as int) * (ONE as int), l as int);
        lemma_tdiv_sign_mag((a.y as int) * (ONE as int), l as int);
        lemma_mul_inequality(mag(a.x as int), l as int, 65536);
        lemma_mul_inequality(mag(a.y as int), l as int, 65536);
        lemma_mag_div_ordered(mag(a.x as int) * 65536, (l as int) * 65536, l as int);
        lemma_mag_div_ordered(mag(a.y as int) * 65536, (l as int) * 65536, l as int);
        assert(((l as int) * 65536) / (l as int) == 65536) by {
            lemma_div_multiples_vanish(65536, l as int);
            vstd::arithmetic::mul::lemma_mul_is_commutative(l as int, 65536);
        }
        lemma_div_pos_is_pos(mag(a.x as int) * 65536, l as int);
        lemma_div_pos_is_pos(mag(a.y as int) * 65536, l as int);
    }
    let nx: i128 = tdiv_i128((a.x as i128) * 65536, l as i128);
    let ny: i128 = tdiv_i128((a.y as i128) * 65536, l as i128);
    Some(V2 { x: nx as i64, y: ny as i64 })
}

pub fn v_divn(a: V2, n: usize) -> (r: V2)
    requires
        n >= 1,
    ensures
        r == s_vdivn(a, n as int),
{
    proof {
        crate::fx::lemma_tdiv_mag(a.x as int, n as int);
        crate::fx::lemma_tdiv_mag(a.y as int, n as int);
    }
    let x: i128 = tdiv_i128(a.x as i128, n as i128);
    let y: i128 = tdiv_i128(a.y as i128, n as i128);
    V2 { x: x as i64, y: y as i64 }
}

/// Per-component truncating halving.
pub fn v_half(a: V2) -> (r: V2)
    ensures
        r == s_vhalf(a),
{
    V2 { x: crate::fx::fx_half(a.x), y: crate::fx::fx_half(a.y) }
}

/// Per-component fixed-point division.
pub fn v_divs(a: V2, d: i64) -> (r: Option<V2>)
    ensures
        r == s_vdivs(a, d),
{
    match (crate::fx::fx_div(a.x, d), crate::fx::fx_div(a.y, d)) {
        (Some(x), Some(y)) => Some(V2 { x, y }),
        _ => None,
    }
}

} // verus!
