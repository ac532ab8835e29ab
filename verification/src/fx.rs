//! Fixed-point scalars.
//!
//! A scalar is an `i64` counting units of `1 / ONE`. Partial operations
//! (those that can overflow the `i64` range or divide by zero) return
//! `Option<i64>`, with `None` standing where a floating-point formula
//! would produce a non-finite value.

use vstd::prelude::*;
use vstd::arithmetic::mul::{
    lemma_mul_unary_negation, lemma_mul_nonnegative, lemma_mul_upper_bound,
    lemma_mul_inequality, lemma_mul_cancels_negatives,
};
use vstd::arithmetic::div_mod::{
    lemma_div_pos_is_pos, lemma_div_nonincreasing, lemma_div_is_ordered,
    lemma_div_multiples_vanish,
};

verus! {

/// One whole unit of the fixed-point scale.
pub const ONE: i64 = 65536;

/// Does a mathematical integer fit in the `i64` range?
pub open spec fn fits(x: int) -> bool {
    i64::MIN <= x <= i64::MAX
}

/// Checked narrowing of a mathematical integer to `i64`.
pub open spec fn chk(x: int) -> Option<i64> {
    if fits(x) {
        Some(x as i64)
    } else {
        None
    }
}

/// Magnitude of a mathematical integer.
pub open spec fn mag(x: int) -> int {
    if x >= 0 {
        x
    } else {
        -x
    }
}

/// Truncating (round-toward-zero) division, the semantics of Rust's `/`
/// on signed integers, defined for a nonzero divisor.
pub open spec fn tdiv(x: int, d: int) -> int {
    if x == 0 {
        0
    } else if x > 0 && d > 0 {
        x / d
    } else if x < 0 && d < 0 {
        (x * -1) / (d * -1)
    } else if x < 0 {
        ((x * -1) / d) * -1
    } else {
        (x / (d * -1)) * -1
    }
}

/// Truncating division is the sign-adjusted quotient of the magnitudes.
pub proof fn lemma_tdiv_sign_mag(x: int, d: int)
    requires
        d != 0,
    ensures
        tdiv(x, d) == if (x >= 0) == (d > 0) {
            mag(x) / mag(d)
        } else {
            -(mag(x) / mag(d))
        },
{
    if x == 0 {
        assert(mag(x) == 0);
        assert(0int / mag(d) == 0) by {
            lemma_div_pos_is_pos(0, mag(d));
            lemma_div_nonincreasing(0, mag(d));
        }
    }
}

/// Truncating division by a nonzero divisor never grows the magnitude.
pub proof fn lemma_tdiv_mag(x: int, d: int)
    requires
        d != 0,
    ensures
        mag(tdiv(x, d)) <= mag(x),
        -mag(x) <= tdiv(x, d) <= mag(x),
{
    lemma_tdiv_sign_mag(x, d);
    lemma_div_pos_is_pos(mag(x), mag(d));
    lemma_div_nonincreasing(mag(x), mag(d));
}

/// The magnitude of a product is the product of the magnitudes.
pub proof fn lemma_mul_mag(a: int, b: int)
    ensures
        mag(a * b) == mag(a) * mag(b),
{
    lemma_mul_nonnegative(mag(a), mag(b));
    if a >= 0 && b >= 0 {
    } else if a < 0 && b < 0 {
        lemma_mul_cancels_negatives(a, b);
    } else if a < 0 {
        lemma_mul_unary_negation(a, b);
    } else {
        lemma_mul_unary_negation(b, a);
        assert(b * a == a * b) by {
            vstd::arithmetic::mul::lemma_mul_is_commutative(a, b);
        }
        assert((-b) * a == a * (-b)) by {
            vstd::arithmetic::mul::lemma_mul_is_commutative(-b, a);
        }
    }
}

/// The sign of a product follows the signs of its factors.
pub proof fn lemma_mul_sign(a: int, b: int)
    ensures
        ((a < 0) != (b < 0)) ==> a * b <= 0,
        ((a < 0) == (b < 0)) ==> a * b >= 0,
{
    if a >= 0 && b >= 0 {
        lemma_mul_nonnegative(a, b);
    } else if a < 0 && b < 0 {
        lemma_mul_cancels_negatives(a, b);
        lemma_mul_nonnegative(-a, -b);
    } else if a < 0 {
        lemma_mul_nonnegative(-a, b);
        lemma_mul_unary_negation(a, b);
    } else {
        lemma_mul_nonnegative(a, -b);
        lemma_mul_unary_negation(b, a);
        vstd::arithmetic::mul::lemma_mul_is_commutative(a, b);
        vstd::arithmetic::mul::lemma_mul_is_commutative(-b, a);
    }
}

/// Quotients of magnitudes are ordered when the dividends are.
pub proof fn lemma_mag_div_ordered(a: int, b: int, d: int)
    requires
        0 <= a <= b,
        0 < d,
    ensures
        a / d <= b / d,
{
    lemma_div_is_ordered(a, b, d);
}

/// The magnitude of an `i64`, exact also for `i64::MIN`.
pub fn abs64(a: i64) -> (r: u64)
    ensures
        r == mag(a as int),
{
    if a < 0 {
        (-(a as i128)) as u64
    } else {
        a as u64
    }
}

/// Checked addition.
pub fn fx_add(a: i64, b: i64) -> (r: Option<i64>)
    ensures
        r == chk(a + b),
{
    a.checked_add(b)
}

/// Checked subtraction.
pub fn fx_sub(a: i64, b: i64) -> (r: Option<i64>)
    ensures
        r == chk(a - b),
{
    a.checked_sub(b)
}

/// Checked negation.
pub fn fx_neg(a: i64) -> (r: Option<i64>)
    ensures
        r == chk(-a),
{
    if a == i64::MIN {
        None
    } else {
        Some(-a)
    }
}

/// What a fixed-point multiplication returns.
pub open spec fn s_mul(a: i64, b: i64) -> Option<i64> {
    chk(tdiv(a * b, ONE as int))
}

/// Fixed-point multiplication: `(a * b) / ONE`, truncated toward zero,
/// `None` outside the `i64` range.
pub fn fx_mul(a: i64, b: i64) -> (r: Option<i64>)
    ensures
        r == s_mul(a, b),
{
    let neg: bool = (a < 0) != (b < 0);
    let ma: u64 = abs64(a);
    let mb: u64 = abs64(b);
    proof {
        lemma_mul_upper_bound(ma as int, 0x8000_0000_0000_0000, mb as int, 0x8000_0000_0000_0000);
    }
    let m: u128 = (ma as u128) * (mb as u128);
    let q: u128 = m / 65536;
    proof {
        lemma_mul_mag(a as int, b as int);
        lemma_mul_sign(a as int, b as int);
        lemma_tdiv_sign_mag((a as int) * (b as int), ONE as int);
        lemma_div_pos_is_pos(m as int, 65536);
        lemma_div_nonincreasing(m as int, 65536);
        assert(m == mag((a as int) * (b as int)));
        assert(q == mag((a as int) * (b as int)) / (ONE as int));
        if neg {
            assert(tdiv((a as int) * (b as int), ONE as int) == -(q as int));
        } else {
            assert(tdiv((a as int) * (b as int), ONE as int) == q as int);
        }
    }
    if neg {
        if q > 0x8000_0000_0000_0000 {
            None
        } else {
            Some((-(q as i128)) as i64)
        }
    } else {
        if q > 0x7fff_ffff_ffff_ffff {
            None
        } else {
            Some(q as i64)
        }
    }
}

/// What a fixed-point division returns.
pub open spec fn s_div(a: i64, b: i64) -> Option<i64> {
    if b == 0 {
        None
    } else {
        chk(tdiv((a as int) * (ONE as int), b as int))
    }
}

/// Fixed-point division: `(a * ONE) / b`, truncated toward zero; `None`
/// for a zero divisor or a quotient outside the `i64` range.
pub fn fx_div(a: i64, b: i64) -> (r: Option<i64>)
    ensures
        r == s_div(a, b),
{
    if b == 0 {
        return None;
    }
    let neg: bool = (a < 0) != (b < 0);
    let ma: u64 = abs64(a);
    let mb: u64 = abs64(b);
    let m: u128 = (ma as u128) * 65536;
    let q: u128 = m / (mb as u128);
    proof {
        lemma_mul_mag(a as int, ONE as int);
        lemma_tdiv_sign_mag((a as int) * (ONE as int), b as int);
        lemma_div_pos_is_pos(m as int, mb as int);
        lemma_div_nonincreasing(m as int, mb as int);
    }
    if neg {
        if q > 0x8000_0000_0000_0000 {
            None
        } else {
            Some((-(q as i128)) as i64)
        }
    } else {
        if q > 0x7fff_ffff_ffff_ffff {
            None
        } else {
            Some(q as i64)
        }
    }
}

/// Floor of the square root of a natural number.
pub open spec fn sqrt_n(n: nat) -> nat
    decreases n,
{
    if n == 0 {
        0
    } else {
        let r = sqrt_n((n - 1) as nat);
        if (r + 1) * (r + 1) <= n {
            r + 1
        } else {
            r
        }
    }
}

/// `sqrt_n` is the floor of the square root.
pub proof fn lemma_sqrt_n(n: nat)
    ensures
        sqrt_n(n) * sqrt_n(n) <= n,
        n < (sqrt_n(n) + 1) * (sqrt_n(n) + 1),
    decreases n,
{
    if n == 0 {
        assert(sqrt_n(n) == 0);
        assert(sqrt_n(n) * sqrt_n(n) <= n) by (nonlinear_arith)
            requires
                sqrt_n(n) == 0,
                n == 0nat,
        {
        }
        assert(n < (sqrt_n(n) + 1) * (sqrt_n(n) + 1)) by (nonlinear_arith)
            requires
                sqrt_n(n) == 0,
                n == 0nat,
        {
        }
    } else {
        let m = (n - 1) as nat;
        lemma_sqrt_n(m);
        let r = sqrt_n(m);
        assert(r * r <= m);
        assert(m < (r + 1) * (r + 1));
        reveal_with_fuel(sqrt_n, 2);
        assert(sqrt_n(n) == if (r + 1) * (r + 1) <= n { r + 1 } else { r });
        if (r + 1) * (r + 1) <= n {
            let s = (r + 1) as nat;
            assert(sqrt_n(n) == s);
            assert(n == s * s);
            assert(s * s < (s + 1) * (s + 1)) by (nonlinear_arith)
            {
            }
            assert(sqrt_n(n) * sqrt_n(n) <= n);
            assert(n < (sqrt_n(n) + 1) * (sqrt_n(n) + 1));
        } else {
            assert(sqrt_n(n) == r);
            assert(sqrt_n(n) * sqrt_n(n) <= n);
            assert(n < (sqrt_n(n) + 1) * (sqrt_n(n) + 1));
        }
    }
}

/// Two integers whose squares straddle `n` the same way are equal.
pub proof fn lemma_sqrt_unique(n: nat, r: nat)
    requires
        r * r <= n,
        n < (r + 1) * (r + 1),
    ensures
        r == sqrt_n(n),
{
    lemma_sqrt_n(n);
    let s = sqrt_n(n);
    if r < s {
        assert((r + 1) * (r + 1) <= s * s) by (nonlinear_arith)
            requires
                r + 1 <= s,
        {
        }
    }
    if s < r {
        assert((s + 1) * (s + 1) <= r * r) by (nonlinear_arith)
            requires
                s + 1 <= r,
        {
        }
    }
}

/// The floor square root is monotone.
pub proof fn lemma_sqrt_monotone(a: nat, b: nat)
    requires
        a <= b,
    ensures
        sqrt_n(a) <= sqrt_n(b),
{
    lemma_sqrt_n(a);
    lemma_sqrt_n(b);
    let x = sqrt_n(a);
    let y = sqrt_n(b);
    if y < x {
        assert((y + 1) * (y + 1) <= x * x) by (nonlinear_arith)
            requires
                y + 1 <= x,
        {
        }
    }
}

/// Integer square root by bisection.
pub fn isqrt(n: u128) -> (r: u64)
    ensures
        r == sqrt_n(n as nat),
        (r as int) * (r as int) <= n as int,
        n < ((r as int) + 1) * ((r as int) + 1),
{
    let mut lo: u128 = 0;
    let mut hi: u128 = 0x1_0000_0000_0000_0000;
    proof {
        assert((hi as int) * (hi as int) > n as int) by (nonlinear_arith)
            requires
                hi == 0x1_0000_0000_0000_0000,
                n <= u128::MAX,
        {
        }
    }
    while hi - lo > 1
        invariant
            lo < hi,
            hi <= 0x1_0000_0000_0000_0000,
            (lo as int) * (lo as int) <= n as int,
            (n as int) < (hi as int) * (hi as int),
        decreases hi - lo,
    {
        let mid: u128 = lo + (hi - lo) / 2;
        proof {
            lemma_mul_upper_bound(mid as int, 0xffff_ffff_ffff_ffff, mid as int, 0xffff_ffff_ffff_ffff);
        }
        let sq: u128 = mid * mid;
        if sq <= n {
            lo = mid;
        } else {
            hi = mid;
        }
    }
    proof {
        lemma_sqrt_unique(n as nat, lo as nat);
    }
    lo as u64
}

/// A quarter turn (pi / 2) in fixed point.
pub const HALF_PI: i64 = 102944;

/// Lifted addition: `None` absorbs.
pub open spec fn o_add(a: Option<i64>, b: Option<i64>) -> Option<i64> {
    match (a, b) {
        (Some(x), Some(y)) => chk(x + y),
        _ => None,
    }
}

/// Lifted subtraction: `None` absorbs.
pub open spec fn o_sub(a: Option<i64>, b: Option<i64>) -> Option<i64> {
    match (a, b) {
        (Some(x), Some(y)) => chk(x - y),
        _ => None,
    }
}

/// Lifted fixed-point multiplication: `None` absorbs.
pub open spec fn o_mul(a: Option<i64>, b: Option<i64>) -> Option<i64> {
    match (a, b) {
        (Some(x), Some(y)) => s_mul(x, y),
        _ => None,
    }
}

/// Lifted fixed-point division: `None` absorbs.
pub open spec fn o_div(a: Option<i64>, b: Option<i64>) -> Option<i64> {
    match (a, b) {
        (Some(x), Some(y)) => s_div(x, y),
        _ => None,
    }
}

/// Lifted negation: `None` absorbs.
pub open spec fn o_neg(a: Option<i64>) -> Option<i64> {
    match a {
        Some(x) => chk(-x),
        None => None,
    }
}

/// Lifted halving (truncating), always representable.
pub open spec fn o_half(a: Option<i64>) -> Option<i64> {
    match a {
        Some(x) => Some(tdiv(x as int, 2) as i64),
        None => None,
    }
}

/// Lifted doubling.
pub open spec fn o_dbl(a: Option<i64>) -> Option<i64> {
    match a {
        Some(x) => chk(2 * x),
        None => None,
    }
}

/// Lifted logarithm: `None` at or below zero, where the real logarithm
/// diverges or is undefined.
pub open spec fn o_ln(a: Option<i64>) -> Option<i64> {
    match a {
        Some(x) => if x >= 1 {
            s_ln(x)
        } else {
            None
        },
        None => None,
    }
}

/// Lifted arctangent of a ratio: `None` absorbs.
pub open spec fn o_atan_ratio(a: Option<i64>, b: Option<i64>) -> Option<i64> {
    match (a, b) {
        (Some(x), Some(y)) => Some(s_atan_ratio(x, y) as i64),
        _ => None,
    }
}

/// Halving is exact in execution.
pub fn fx_half(a: i64) -> (r: i64)
    ensures
        Some(r) == o_half(Some(a)),
        mag(r as int) <= mag(a as int),
{
    proof {
        lemma_tdiv_mag(a as int, 2);
    }
    tdiv_i128(a as i128, 2) as i64
}

/// Doubling, checked.
pub fn fx_dbl(a: i64) -> (r: Option<i64>)
    ensures
        r == o_dbl(Some(a)),
{
    a.checked_mul(2)
}

/// One square-root contraction at scale 2^32.
pub open spec fn ln_step(y: nat) -> nat {
    sqrt_n(y * 0x1_0000_0000)
}

/// `i` successive square-root contractions.
pub open spec fn ln_iter(y: nat, i: nat) -> nat
    decreases i,
{
    if i == 0 {
        y
    } else {
        ln_iter(ln_step(y), (i - 1) as nat)
    }
}

/// What the fixed-point logarithm returns.
pub open spec fn s_ln(x: i64) -> Option<i64> {
    chk(ln_iter((x as nat) * 65536, 16) - 0x1_0000_0000)
}

/// Natural logarithm of `x / ONE`, in fixed point.
///
/// Sixteen successive square roots at scale 2^32 contract the value
/// toward one: the sixteenth iterate is close to
/// `2^32 * (x / ONE)^(1 / 65536) = 2^32 + ONE * ln(x / ONE)` plus a
/// quadratically small remainder, so its offset from 2^32 is the
/// logarithm at scale `ONE`.
pub fn fx_ln(x: i64) -> (r: Option<i64>)
    requires
        x >= 1,
    ensures
        r == s_ln(x),
{
    let mut y: u128 = (x as u128) * 65536;
    let mut i: usize = 0;
    while i < 16
        invariant
            0 <= i <= 16,
            y < 0x8000_0000_0000_0000_0000,
            ln_iter(y as nat, (16 - i) as nat) == ln_iter((x as nat) * 65536, 16),
        decreases 16 - i,
    {
        let next: u64 = isqrt(y * 0x1_0000_0000);
        proof {
            assert(ln_iter(y as nat, (16 - i) as nat)
                == ln_iter(ln_step(y as nat), (16 - (i + 1)) as nat));
        }
        y = next as u128;
        i = i + 1;
    }
    let v: i128 = (y as i128) - 0x1_0000_0000;
    if v > 0x7fff_ffff_ffff_ffff {
        None
    } else if v < -0x8000_0000_0000_0000 {
        None
    } else {
        Some(v as i64)
    }
}

/// One contraction step stays under `2^56` whenever its input is a
/// representable scaled value.
proof fn lemma_ln_step_le(y: nat)
    requires
        y <= 0x8000_0000_0000_0000_0000,
    ensures
        ln_step(y) <= 0x100_0000_0000_0000,
{
    let n = y * 0x1_0000_0000;
    lemma_sqrt_n(n);
    let r = sqrt_n(n);
    if r > 0x100_0000_0000_0000 {
        assert(0x100_0000_0000_0000nat * 0x100_0000_0000_0000nat
            == 0x1_0000_0000_0000_0000_0000_0000_0000nat) by (nonlinear_arith);
        lemma_mul_inequality(0x100_0000_0000_0000, r as int, r as int);
        lemma_mul_inequality(0x100_0000_0000_0000, r as int, 0x100_0000_0000_0000);
        assert(r * r >= 0x100_0000_0000_0000 * r >= 0x100_0000_0000_0000nat
            * 0x100_0000_0000_0000nat) by {
            lemma_mul_inequality(0x100_0000_0000_0000, r as int, r as int);
            vstd::arithmetic::mul::lemma_mul_is_commutative(0x100_0000_0000_0000, r as int);
            vstd::arithmetic::mul::lemma_mul_left_inequality(
                0x100_0000_0000_0000,
                0x100_0000_0000_0000,
                r as int,
            );
        }
        assert(false);
    }
}

/// The contraction never leaves `[0, 2^56]` once inside it.
proof fn lemma_ln_iter_le(y: nat, i: nat)
    requires
        y <= 0x100_0000_0000_0000,
    ensures
        ln_iter(y, i) <= 0x100_0000_0000_0000,
    decreases i,
{
    if i > 0 {
        lemma_ln_step_le(y);
        lemma_ln_iter_le(ln_step(y), (i - 1) as nat);
    }
}

/// The logarithm is defined for every representable value of at least
/// one scale unit, and bounded.
pub proof fn lemma_ln_defined(x: i64)
    requires
        x >= 1,
    ensures
        s_ln(x) is Some,
        s_ln(x) matches Some(l) ==> -0x1_0000_0000 <= l <= 0x100_0000_0000_0000,
{
    let y0 = (x as nat) * 65536;
    assert(ln_iter(y0, 16) == ln_iter(ln_step(y0), 15));
    lemma_ln_step_le(y0);
    lemma_ln_iter_le(ln_step(y0), 15);
}

/// Truncating division of a signed value by a positive divisor.
pub(crate) fn tdiv_i128(p: i128, d: i128) -> (r: i128)
    requires
        p > i128::MIN,
        d > 0,
    ensures
        r == tdiv(p as int, d as int),
        mag(r as int) <= mag(p as int),
{
    let mp: u128 = if p < 0 {
        (-p) as u128
    } else {
        p as u128
    };
    let q: u128 = mp / (d as u128);
    proof {
        lemma_tdiv_sign_mag(p as int, d as int);
        lemma_div_pos_is_pos(mp as int, d as int);
        lemma_div_nonincreasing(mp as int, d as int);
    }
    if p < 0 {
        -(q as i128)
    } else {
        q as i128
    }
}

/// Horner evaluation of the arctangent polynomial, on `[0, ONE]`.
pub open spec fn s_atan_poly(t: int) -> int {
    let u = tdiv(t * t, 65536);
    let a3 = tdiv(1366 * u, 65536) - 5580;
    let a2 = tdiv(a3 * u, 65536) + 11807;
    let a1 = tdiv(a2 * u, 65536) - 21647;
    let a0 = tdiv(a1 * u, 65536) + 65527;
    tdiv(a0 * t, 65536)
}

/// Rescaling after multiplication by at most one unit never grows a bound
/// on the magnitude.
pub(crate) proof fn lemma_scale_bound(a: int, u: int, m: int)
    requires
        0 <= u <= 65536,
        mag(a) <= m,
    ensures
        mag(tdiv(a * u, 65536)) <= m,
        -m <= tdiv(a * u, 65536) <= m,
{
    lemma_mul_mag(a, u);
    lemma_tdiv_sign_mag(a * u, 65536);
    lemma_tdiv_mag(a * u, 65536);
    lemma_mul_upper_bound(mag(a), m, mag(u), 65536);
    lemma_mag_div_ordered(mag(a * u), m * 65536, 65536);
    assert((65536 * m) / 65536 == m) by {
        lemma_div_multiples_vanish(m, 65536);
    }
    assert(m * 65536 == 65536 * m) by {
        vstd::arithmetic::mul::lemma_mul_is_commutative(m, 65536);
    }
}

/// The polynomial part of the arctangent, for `0 <= t <= ONE`.
fn atan_poly(t: i64) -> (r: i64)
    requires
        0 <= t <= 65536,
    ensures
        r == s_atan_poly(t as int),
        mag(r as int) <= 105927,
{
    proof {
        lemma_mul_upper_bound(t as int, 65536, t as int, 65536);
        lemma_scale_bound(t as int, t as int, 65536);
        lemma_tdiv_sign_mag((t * t) as int, 65536);
        lemma_div_pos_is_pos((t * t) as int, 65536);
    }
    let u: i128 = tdiv_i128((t as i128) * (t as i128), 65536);
    proof {
        lemma_scale_bound(1366, u as int, 1366);
    }
    let a3: i128 = tdiv_i128(1366 * u, 65536) - 5580;
    proof {
        lemma_scale_bound(a3 as int, u as int, 6946);
    }
    let a2: i128 = tdiv_i128(a3 * u, 65536) + 11807;
    proof {
        lemma_scale_bound(a2 as int, u as int, 18753);
    }
    let a1: i128 = tdiv_i128(a2 * u, 65536) - 21647;
    proof {
        lemma_scale_bound(a1 as int, u as int, 40400);
    }
    let a0: i128 = tdiv_i128(a1 * u, 65536) + 65527;
    proof {
        lemma_scale_bound(a0 as int, t as int, 105927);
    }
    let r: i128 = tdiv_i128(a0 * (t as i128), 65536);
    r as i64
}

/// What the fixed-point arctangent of a ratio returns: `HALF_PI` toward
/// a zero denominator, following the sign of the numerator.
pub open spec fn s_atan_ratio(num: i64, den: i64) -> int {
    if den == 0 {
        if num > 0 {
            HALF_PI as int
        } else if num < 0 {
            -(HALF_PI as int)
        } else {
            0
        }
    } else {
        let m = if mag(num as int) <= mag(den as int) {
            s_atan_poly(mag(num as int) * 65536 / mag(den as int))
        } else {
            (HALF_PI as int) - s_atan_poly(mag(den as int) * 65536 / mag(num as int))
        };
        if (num < 0) != (den < 0) {
            -m
        } else {
            m
        }
    }
}

/// Arctangent of the ratio `num / den` of two fixed-point values, total:
/// a zero denominator yields the quarter-turn limit with the numerator's
/// sign, as the floating-point `atan` of `x / 0.0` would.
pub fn fx_atan_ratio(num: i64, den: i64) -> (r: i64)
    ensures
        r == s_atan_ratio(num, den),
        mag(r as int) <= 208871,
{
    if den == 0 {
        if num > 0 {
            HALF_PI
        } else if num < 0 {
            -HALF_PI
        } else {
            0
        }
    } else {
        let mn: u64 = abs64(num);
        let md: u64 = abs64(den);
        let m: i64 = if mn <= md {
            let t: u128 = (mn as u128) * 65536 / (md as u128);
            proof {
                lemma_mul_upper_bound(mn as int, md as int, 65536, 65536);
                lemma_mag_div_ordered((mn as int) * 65536, (md as int) * 65536, md as int);
                assert(((md as int) * 65536) / (md as int) == 65536) by {
                    lemma_div_multiples_vanish(65536, md as int);
                    vstd::arithmetic::mul::lemma_mul_is_commutative(md as int, 65536);
                }
                lemma_div_pos_is_pos((mn as int) * 65536, md as int);
            }
            atan_poly(t as i64)
        } else {
            let t: u128 = (md as u128) * 65536 / (mn as u128);
            proof {
                lemma_mul_upper_bound(md as int, mn as int, 65536, 65536);
                lemma_mag_div_ordered((md as int) * 65536, (mn as int) * 65536, mn as int);
                assert(((mn as int) * 65536) / (mn as int) == 65536) by {
                    lemma_div_multiples_vanish(65536, mn as int);
                    vstd::arithmetic::mul::lemma_mul_is_commutative(mn as int, 65536);
                }
                lemma_div_pos_is_pos((md as int) * 65536, mn as int);
            }
            HALF_PI - atan_poly(t as i64)
        };
        if (num < 0) != (den < 0) {
            -m
        } else {
            m
        }
    }
}

} // verus!
