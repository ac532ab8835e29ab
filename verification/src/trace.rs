//! The adaptive step-size Runge-Kutta curve tracer, and its two
//! specializations: the isopotential tracer and the field-line tracer.
//!
//! Each step evaluates the four classic Runge-Kutta stage directions of
//! a unit direction field, measures a local error proxy, and adapts the
//! step length with hysteresis: halve and retry on a large error, double
//! and retry on a small one, but never both within one step, so a step
//! is settled after a bounded run of retries. A point whose computation
//! leaves the representable range ends the trace early with the points
//! accumulated so far.

use vstd::prelude::*;
use crate::fx::{
    ONE, mag, tdiv, fx_half, sqrt_n, isqrt, tdiv_i128,
    lemma_tdiv_mag, lemma_mul_mag, };
use crate::vec2::{
    V2, s_v, s_vadd, s_vsub, s_vscale, s_vlen,
    ov_add, ov_neg, ov_perp, ov_norm,
    v_add, v_sub, v_neg, v_perp, v_scale, v_len, v_norm,
    lemma_square_nonneg,
};
use crate::body::{Body, s_body_field, s_body_potential};
use vstd::arithmetic::mul::{lemma_mul_upper_bound};
use vstd::arithmetic::div_mod::{lemma_div_pos_is_pos, lemma_div_is_ordered};

verus! {

/// Which direction field a trace follows.
#[derive(Clone, Copy, PartialEq, Eq, Structural, Debug)]
pub enum TraceKind {
    /// The perpendicular of the normalized field: tangent to the
    /// potential's level curve, for isopotentials.
    Isopotential,
    /// The normalized field itself, for the forward half of a field line.
    FieldForward,
    /// The negated normalized field, for the backward half.
    FieldBackward,
}

/// How the last attempted step already changed within the current
/// adaptation, bounding the retries: a step that has grown is never
/// shrunk again, and the other way round.
#[derive(Clone, Copy, PartialEq, Eq, Structural, Debug)]
pub enum AdaptStep {
    NoChange,
    Decrease,
    Increase,
}

/// A field line is considered terminated once the potential magnitude at
/// the next point would exceed this bound (three hundred units): the
/// line has come close to a source.
pub const FIELD_LINE_MAX_POTENTIAL: i64 = 19660800;

/// The unit direction field that `kind` traces through the source `b`.
#[verifier::opaque]
pub open spec fn s_dir(b: Body, kind: TraceKind, p: V2) -> Option<V2> {
    let u = ov_norm(s_body_field(b, p));
    match kind {
        TraceKind::Isopotential => ov_perp(u),
        TraceKind::FieldForward => u,
        TraceKind::FieldBackward => ov_neg(u),
    }
}

/// Every direction is a normalized vector: each component within one unit.
pub open spec fn s_unit(v: V2) -> bool {
    mag(v.x as int) <= ONE as int && mag(v.y as int) <= ONE as int
}

/// The direction field, executable.
fn dir_at(b: &Body, kind: TraceKind, p: V2) -> (r: Option<V2>)
    ensures
        r == s_dir(*b, kind, p),
        r matches Some(u) ==> s_unit(u),
{
    proof {
        reveal(s_dir);
    }
    let f = b.e_field(p)?;
    let u = v_norm(f)?;
    match kind {
        TraceKind::Isopotential => v_perp(u),
        TraceKind::FieldForward => Some(u),
        TraceKind::FieldBackward => v_neg(u),
    }
}

/// The four Runge-Kutta stage directions at `r` with step length `dl`:
/// at the point, twice at half-step probes, and at a full-step probe.
#[verifier::opaque]
pub open spec fn s_stages(b: Body, kind: TraceKind, r: V2, dl: i64) -> Option<(V2, V2, V2, V2)> {
    let h = tdiv(dl as int, 2) as i64;
    match s_dir(b, kind, r) {
        None => None,
        Some(k1) => match ov_add(Some(r), s_vscale(k1, h)) {
            None => None,
            Some(p2) => match s_dir(b, kind, p2) {
                None => None,
                Some(k2) => match ov_add(Some(r), s_vscale(k2, h)) {
                    None => None,
                    Some(p3) => match s_dir(b, kind, p3) {
                        None => None,
                        Some(k3) => match ov_add(Some(r), s_vscale(k3, dl)) {
                            None => None,
                            Some(p4) => match s_dir(b, kind, p4) {
                                None => None,
                                Some(k4) => Some((k1, k2, k3, k4)),
                            },
                        },
                    },
                },
            },
        },
    }
}

/// All four stages within one unit.
pub open spec fn s_unit_stages(ks: (V2, V2, V2, V2)) -> bool {
    s_unit(ks.0) && s_unit(ks.1) && s_unit(ks.2) && s_unit(ks.3)
}

/// The stages, executable.
fn rk_stages(b: &Body, kind: TraceKind, r: V2, dl: i64) -> (res: Option<(V2, V2, V2, V2)>)
    ensures
        res == s_stages(*b, kind, r, dl),
        res matches Some(ks) ==> s_unit_stages(ks),
{
    proof {
        reveal(s_stages);
    }
    let h = fx_half(dl);
    let k1 = dir_at(b, kind, r)?;
    let s1 = v_scale(k1, h)?;
    let p2 = v_add(r, s1)?;
    let k2 = dir_at(b, kind, p2)?;
    let s2 = v_scale(k2, h)?;
    let p3 = v_add(r, s2)?;
    let k3 = dir_at(b, kind, p3)?;
    let s3 = v_scale(k3, dl)?;
    let p4 = v_add(r, s3)?;
    let k4 = dir_at(b, kind, p4)?;
    Some((k1, k2, k3, k4))
}

/// The local error proxy of a step: `|k1 - 4 k2 + 2 k3 + k4| / 6`.
#[verifier::opaque]
pub open spec fn s_err(ks: (V2, V2, V2, V2)) -> int {
    let ex = ks.0.x - 4 * ks.1.x + 2 * ks.2.x + ks.3.x;
    let ey = ks.0.y - 4 * ks.1.y + 2 * ks.2.y + ks.3.y;
    sqrt_n((ex * ex + ey * ey) as nat) as int / 6
}

/// The error proxy, executable.
fn err_of(ks: (V2, V2, V2, V2)) -> (r: i64)
    requires
        s_unit_stages(ks),
    ensures
        r == s_err(ks),
        0 <= r,
{
    proof {
        reveal(s_err);
    }
    let ex: i128 = (ks.0.x as i128) - 4 * (ks.1.x as i128) + 2 * (ks.2.x as i128) + (
    ks.3.x as i128);
    let ey: i128 = (ks.0.y as i128) - 4 * (ks.1.y as i128) + 2 * (ks.2.y as i128) + (
    ks.3.y as i128);
    proof {
        lemma_square_nonneg(ex as int);
        lemma_square_nonneg(ey as int);
        lemma_mul_upper_bound(mag(ex as int), 0x80000, mag(ex as int), 0x80000);
        lemma_mul_upper_bound(mag(ey as int), 0x80000, mag(ey as int), 0x80000);
    }
    let m: u128 = ((ex * ex) as u128) + ((ey * ey) as u128);
    let l: u64 = isqrt(m);
    proof {
        crate::fx::lemma_sqrt_monotone(m as nat, 0x10000000000);
        assert(0x100000nat * 0x100000nat == 0x10000000000nat) by (nonlinear_arith);
        assert((0x100000nat + 1) * (0x100000nat + 1) == 0x10000200001nat) by (nonlinear_arith);
        crate::fx::lemma_sqrt_unique(0x10000000000, 0x100000);
        lemma_div_pos_is_pos(l as int, 6);
        lemma_div_is_ordered(l as int, 0x100000, 6);
    }
    (l / 6) as i64
}

/// The hysteresis-bounded step adaptation: evaluate the stages, and on a
/// large error halve and retry (unless the step already grew, or cannot
/// shrink further); on a small error double and retry (unless the step
/// already shrank, or cannot grow further); otherwise accept. The result
/// is the accepted stages with the step length they were measured at,
/// or `None` where a stage evaluation was undefined.
#[verifier::opaque]
pub open spec fn s_adapt(
    b: Body,
    kind: TraceKind,
    r: V2,
    dl: i64,
    st: AdaptStep,
    min_dl: i64,
    max_dl: i64,
    max_err: i64,
) -> Option<((V2, V2, V2, V2), i64)>
    decreases
            (if st == AdaptStep::NoChange {
                1int
            } else {
                0int
            }),
            (if st == AdaptStep::Increase {
                max_dl - dl
            } else {
                dl as int
            }),
{
    match s_stages(b, kind, r, dl) {
        None => None,
        Some(ks) => {
            let err = s_err(ks);
            if err >= max_err {
                if min_dl >= 1 && tdiv(dl as int, 2) >= min_dl && dl <= max_dl && st
                    != AdaptStep::Increase {
                    s_adapt(
                        b,
                        kind,
                        r,
                        tdiv(dl as int, 2) as i64,
                        AdaptStep::Decrease,
                        min_dl,
                        max_dl,
                        max_err,
                    )
                } else {
                    Some((ks, dl))
                }
            } else if err < tdiv(max_err as int, 10) {
                if dl >= 1 && 2 * dl <= max_dl && st != AdaptStep::Decrease {
                    s_adapt(b, kind, r, (2 * dl) as i64, AdaptStep::Increase, min_dl, max_dl, max_err)
                } else {
                    Some((ks, dl))
                }
            } else {
                Some((ks, dl))
            }
        },
    }
}

/// The adaptation, executable; the accepted step length stays within the
/// configured bounds.
fn adaptive_stages(
    b: &Body,
    kind: TraceKind,
    r: V2,
    dl: i64,
    st: AdaptStep,
    min_dl: i64,
    max_dl: i64,
    max_err: i64,
) -> (res: Option<((V2, V2, V2, V2), i64)>)
    requires
        1 <= min_dl <= dl <= max_dl,
        max_err >= 1,
    ensures
        res == s_adapt(*b, kind, r, dl, st, min_dl, max_dl, max_err),
        res matches Some(a) ==> min_dl <= a.1 <= max_dl && s_unit_stages(a.0),
    decreases
            (if st == AdaptStep::NoChange {
                1int
            } else {
                0int
            }),
            (if st == AdaptStep::Increase {
                max_dl - dl
            } else {
                dl as int
            }),
{
    proof {
        reveal(s_adapt);
    }
    let kso = rk_stages(b, kind, r, dl);
    match kso {
        None => None,
        Some(ks) => {
            let err = err_of(ks);
            if err >= max_err {
                let h = fx_half(dl);
                if h >= min_dl && st != AdaptStep::Increase {
                    proof {
                        lemma_tdiv_mag(dl as int, 2);
                    }
                    adaptive_stages(b, kind, r, h, AdaptStep::Decrease, min_dl, max_dl, max_err)
                } else {
                    Some((ks, dl))
                }
            } else {
                let tenth = tdiv_i128(max_err as i128, 10) as i64;
                if err < tenth {
                    let grown = dl.checked_mul(2);
                    match grown {
                        Some(d2) if d2 <= max_dl && st != AdaptStep::Decrease => adaptive_stages(
                            b,
                            kind,
                            r,
                            d2,
                            AdaptStep::Increase,
                            min_dl,
                            max_dl,
                            max_err,
                        ),
                        _ => {
                            proof {
                                if st != AdaptStep::Decrease && 2 * (dl as int) <= max_dl as int {
                                    assert(grown == Some((2 * dl) as i64));
                                    assert(false);
                                }
                            }
                            Some((ks, dl))
                        },
                    }
                } else {
                    Some((ks, dl))
                }
            }
        },
    }
}

/// The weighted increment of an accepted step:
/// `(k1 + 2 (k2 + k3) + k4) * dl / 6`, per component.
#[verifier::opaque]
pub open spec fn s_rk_inc(ks: (V2, V2, V2, V2), dl: i64) -> Option<V2> {
    let sx = ks.0.x + 2 * (ks.1.x + ks.2.x) + ks.3.x;
    let sy = ks.0.y + 2 * (ks.1.y + ks.2.y) + ks.3.y;
    s_v(tdiv(tdiv(sx * dl, 65536), 6), tdiv(tdiv(sy * dl, 65536), 6))
}

/// The increment, executable.
fn rk_inc(ks: (V2, V2, V2, V2), dl: i64) -> (r: Option<V2>)
    requires
        s_unit_stages(ks),
    ensures
        r == s_rk_inc(ks, dl),
{
    proof {
        reveal(s_rk_inc);
    }
    let sx: i128 = (ks.0.x as i128) + 2 * ((ks.1.x as i128) + (ks.2.x as i128)) + (
    ks.3.x as i128);
    let sy: i128 = (ks.0.y as i128) + 2 * ((ks.1.y as i128) + (ks.2.y as i128)) + (
    ks.3.y as i128);
    proof {
        lemma_mul_mag(sx as int, dl as int);
        lemma_mul_mag(sy as int, dl as int);
        lemma_mul_upper_bound(mag(sx as int), 0x60000, mag(dl as int), 0x8000_0000_0000_0000);
        lemma_mul_upper_bound(mag(sy as int), 0x60000, mag(dl as int), 0x8000_0000_0000_0000);
        assert(0x60000 * 0x8000_0000_0000_0000 == 0x3_0000_0000_0000_0000_0000int)
            by (nonlinear_arith);
    }
    let px: i128 = sx * (dl as i128);
    let py: i128 = sy * (dl as i128);
    let qx: i128 = tdiv_i128(tdiv_i128(px, 65536), 6);
    let qy: i128 = tdiv_i128(tdiv_i128(py, 65536), 6);
    if qx > 0x7fff_ffff_ffff_ffff || qx < -0x8000_0000_0000_0000 || qy > 0x7fff_ffff_ffff_ffff
        || qy < -0x8000_0000_0000_0000 {
        None
    } else {
        Some(V2 { x: qx as i64, y: qy as i64 })
    }
}

/// Loop closure: `p` has come within half the current step of the seed.
#[verifier::opaque]
pub open spec fn s_close(p: V2, seed: V2, dl: i64) -> bool {
    match s_vsub(p, seed) {
        Some(d) => match s_vlen(d) {
            Some(l) => (l as int) < tdiv(dl as int, 2),
            None => false,
        },
        None => false,
    }
}

/// The closure test, executable.
fn is_close(p: V2, seed: V2, dl: i64) -> (r: bool)
    ensures
        r == s_close(p, seed, dl),
{
    proof {
        reveal(s_close);
    }
    match v_sub(p, seed) {
        Some(d) => match v_len(d) {
            Some(l) => l < fx_half(dl),
            None => false,
        },
        None => false,
    }
}

/// Does the potential magnitude end a field line?
pub open spec fn s_past_limit(v: i64) -> bool {
    mag(v as int) > FIELD_LINE_MAX_POTENTIAL as int
}

/// The trace from `r` with current step `dl` and `fuel` steps left: the
/// accepted points in order, and whether the stop condition fired. Each
/// step adapts the step length, advances by the weighted increment, and
/// then, for an isopotential, appends the point and stops once it closes
/// on the seed; for a field line, stops (without the point) once the
/// potential magnitude passes the bound, else appends it. A step whose
/// value is undefined ends the trace with the points so far.
#[verifier::opaque]
pub open spec fn s_trace(
    b: Body,
    kind: TraceKind,
    seed: V2,
    r: V2,
    dl: i64,
    min_dl: i64,
    max_dl: i64,
    max_err: i64,
    fuel: nat,
) -> (Seq<V2>, bool)
    decreases fuel,
{
    if fuel == 0 {
        (Seq::empty(), false)
    } else {
        match s_adapt(b, kind, r, dl, AdaptStep::NoChange, min_dl, max_dl, max_err) {
            None => (Seq::empty(), false),
            Some((ks, ndl)) => match s_rk_inc(ks, ndl) {
                None => (Seq::empty(), false),
                Some(inc) => match s_vadd(r, inc) {
                    None => (Seq::empty(), false),
                    Some(r2) => match kind {
                        TraceKind::Isopotential => if s_close(r2, seed, ndl) {
                            (seq![r2], true)
                        } else {
                            let rest = s_trace(
                                b,
                                kind,
                                seed,
                                r2,
                                ndl,
                                min_dl,
                                max_dl,
                                max_err,
                                (fuel - 1) as nat,
                            );
                            (seq![r2] + rest.0, rest.1)
                        },
                        _ => match s_body_potential(b, r2) {
                            None => (Seq::empty(), false),
                            Some(v) => if s_past_limit(v) {
                                (Seq::empty(), true)
                            } else {
                                let rest = s_trace(
                                    b,
                                    kind,
                                    seed,
                                    r2,
                                    ndl,
                                    min_dl,
                                    max_dl,
                                    max_err,
                                    (fuel - 1) as nat,
                                );
                                (seq![r2] + rest.0, rest.1)
                            },
                        },
                    },
                },
            },
        }
    }
}

/// One directed trace, executable: follows `kind`'s direction field from
/// the seed, with the step starting at its maximum.
#[verifier::rlimit(100)]
fn trace_dir(
    b: &Body,
    kind: TraceKind,
    seed: V2,
    min_dl: i64,
    max_dl: i64,
    max_err: i64,
    max_steps: usize,
) -> (res: (Vec<V2>, bool))
    requires
        1 <= min_dl <= max_dl,
        max_err >= 1,
    ensures
        (res.0@, res.1) == s_trace(
            *b,
            kind,
            seed,
            seed,
            max_dl,
            min_dl,
            max_dl,
            max_err,
            max_steps as nat,
        ),
{
    proof {
        reveal(s_trace);
    }
    let ghost total = s_trace(*b, kind, seed, seed, max_dl, min_dl, max_dl, max_err,
        max_steps as nat);
    let mut pts: Vec<V2> = Vec::new();
    let mut r = seed;
    let mut dl = max_dl;
    let mut closed = false;
    let mut step: usize = 0;
    loop
        invariant_except_break
            1 <= min_dl <= dl <= max_dl,
            max_err >= 1,
            step <= max_steps,
            closed == false,
            ({
                let rest = s_trace(
                    *b,
                    kind,
                    seed,
                    r,
                    dl,
                    min_dl,
                    max_dl,
                    max_err,
                    (max_steps - step) as nat,
                );
                total == (pts@ + rest.0, rest.1)
            }),
        ensures
            total == (pts@, closed),
        decreases max_steps - step,
    {
        proof {
            reveal(s_trace);
        }
        if step >= max_steps {
            proof {
                assert(pts@ + Seq::<V2>::empty() =~= pts@);
            }
            break ;
        }
        let ghost fuel = (max_steps - step) as nat;
        let ghost rest0 = s_trace(*b, kind, seed, r, dl, min_dl, max_dl, max_err, fuel);
        match adaptive_stages(b, kind, r, dl, AdaptStep::NoChange, min_dl, max_dl, max_err) {
            None => {
                proof {
                    assert(pts@ + rest0.0 =~= pts@);
                }
                break ;
            },
            Some((ks, ndl)) => {
                dl = ndl;
                match rk_inc(ks, ndl) {
                    None => {
                        proof {
                            assert(pts@ + rest0.0 =~= pts@);
                        }
                        break ;
                    },
                    Some(inc) => {
                        match v_add(r, inc) {
                            None => {
                                proof {
                                    assert(pts@ + rest0.0 =~= pts@);
                                }
                                break ;
                            },
                            Some(r2) => {
                                match kind {
                                    TraceKind::Isopotential => {
                                        pts.push(r2);
                                        proof {
                                            let rest1 = s_trace(
                                                *b,
                                                kind,
                                                seed,
                                                r2,
                                                ndl,
                                                min_dl,
                                                max_dl,
                                                max_err,
                                                (fuel - 1) as nat,
                                            );
                                            assert(pts@ + rest1.0 =~= (pts@.drop_last() + (seq![r2]
                                                + rest1.0)));
                                            assert(pts@ =~= pts@.drop_last() + seq![r2]);
                                        }
                                        if is_close(r2, seed, ndl) {
                                            closed = true;
                                            break ;
                                        }
                                        r = r2;
                                    },
                                    _ => {
                                        let vo = b.potential(r2);
                                        match vo {
                                            None => {
                                                proof {
                                                    assert(pts@ + rest0.0 =~= pts@);
                                                }
                                                break ;
                                            },
                                            Some(v) => {
                                                if v > FIELD_LINE_MAX_POTENTIAL || v
                                                    < -FIELD_LINE_MAX_POTENTIAL {
                                                    closed = true;
                                                    proof {
                                                        assert(pts@ + rest0.0 =~= pts@);
                                                    }
                                                    break ;
                                                }
                                                pts.push(r2);
                                                proof {
                                                    let rest1 = s_trace(
                                                        *b,
                                                        kind,
                                                        seed,
                                                        r2,
                                                        ndl,
                                                        min_dl,
                                                        max_dl,
                                                        max_err,
                                                        (fuel - 1) as nat,
                                                    );
                                                    assert(pts@ + rest1.0 =~= (pts@.drop_last() + (
                                                    seq![r2] + rest1.0)));
                                                    assert(pts@ =~= pts@.drop_last() + seq![r2]);
                                                }
                                                r = r2;
                                            },
                                        }
                                    },
                                }
                            },
                        }
                    },
                }
            },
        }
        step = step + 1;
    }
    (pts, closed)
}

/// The adaptation never leaves the configured step bounds, and its
/// hysteresis never both grows and shrinks one step: a step accepted
/// with the error proxy still at or above the tolerance is one that
/// could not shrink further or that had already grown within the same
/// adaptation, and one accepted with the proxy below a tenth of the
/// tolerance is one that could not grow further or had already shrunk.
pub proof fn lemma_adapt_acceptance(
    b: Body,
    kind: TraceKind,
    r: V2,
    dl: i64,
    st: AdaptStep,
    min_dl: i64,
    max_dl: i64,
    max_err: i64,
)
    requires
        1 <= min_dl <= dl <= max_dl,
        max_err >= 1,
    ensures
        s_adapt(b, kind, r, dl, st, min_dl, max_dl, max_err) matches Some(a) ==> {
            &&& min_dl <= a.1 <= max_dl
            &&& st == AdaptStep::Decrease ==> a.1 <= dl
            &&& st == AdaptStep::Increase ==> a.1 >= dl
            &&& s_err(a.0) >= max_err ==> tdiv(a.1 as int, 2) < min_dl || st
                == AdaptStep::Increase || a.1 > dl
            &&& s_err(a.0) < tdiv(max_err as int, 10) ==> 2 * a.1 > max_dl || st
                == AdaptStep::Decrease || a.1 < dl
        },
    decreases
            (if st == AdaptStep::NoChange {
                1int
            } else {
                0int
            }),
            (if st == AdaptStep::Increase {
                max_dl - dl
            } else {
                dl as int
            }),
{
    reveal(s_adapt);
    match s_stages(b, kind, r, dl) {
        None => {},
        Some(ks) => {
            let err = s_err(ks);
            if err >= max_err {
                if min_dl >= 1 && tdiv(dl as int, 2) >= min_dl && dl <= max_dl && st
                    != AdaptStep::Increase {
                    lemma_tdiv_mag(dl as int, 2);
                    lemma_adapt_acceptance(
                        b,
                        kind,
                        r,
                        tdiv(dl as int, 2) as i64,
                        AdaptStep::Decrease,
                        min_dl,
                        max_dl,
                        max_err,
                    );
                }
            } else if err < tdiv(max_err as int, 10) {
                if dl >= 1 && 2 * dl <= max_dl && st != AdaptStep::Decrease {
                    lemma_adapt_acceptance(
                        b,
                        kind,
                        r,
                        (2 * dl) as i64,
                        AdaptStep::Increase,
                        min_dl,
                        max_dl,
                        max_err,
                    );
                }
            }
        },
    }
}

/// A trace never returns more points than its step budget.
pub proof fn lemma_trace_len(
    b: Body,
    kind: TraceKind,
    seed: V2,
    r: V2,
    dl: i64,
    min_dl: i64,
    max_dl: i64,
    max_err: i64,
    fuel: nat,
)
    ensures
        s_trace(b, kind, seed, r, dl, min_dl, max_dl, max_err, fuel).0.len() <= fuel,
    decreases fuel,
{
    reveal(s_trace);
    if fuel > 0 {
        match s_adapt(b, kind, r, dl, AdaptStep::NoChange, min_dl, max_dl, max_err) {
            None => {},
            Some((ks, ndl)) => match s_rk_inc(ks, ndl) {
                None => {},
                Some(inc) => match s_vadd(r, inc) {
                    None => {},
                    Some(r2) => {
                        lemma_trace_len(
                            b,
                            kind,
                            seed,
                            r2,
                            ndl,
                            min_dl,
                            max_dl,
                            max_err,
                            (fuel - 1) as nat,
                        );
                    },
                },
            },
        }
    }
}

/// A closed isopotential trace holds at least one point, and its last
/// point lies within half of some step length from the configured range
/// of the seed: the loop-closure stop is the only way it reports closed.
pub proof fn lemma_trace_closure(
    b: Body,
    seed: V2,
    r: V2,
    dl: i64,
    min_dl: i64,
    max_dl: i64,
    max_err: i64,
    fuel: nat,
)
    requires
        1 <= min_dl <= dl <= max_dl,
        max_err >= 1,
    ensures
        ({
            let t = s_trace(b, TraceKind::Isopotential, seed, r, dl, min_dl, max_dl, max_err, fuel);
            t.1 ==> t.0.len() >= 1 && exists|d: i64|
                min_dl <= d <= max_dl && #[trigger] s_close(t.0.last(), seed, d)
        }),
    decreases fuel,
{
    reveal(s_trace);
    let kind = TraceKind::Isopotential;
    if fuel > 0 {
        match s_adapt(b, kind, r, dl, AdaptStep::NoChange, min_dl, max_dl, max_err) {
            None => {},
            Some((ks, ndl)) => {
                lemma_adapt_acceptance(b, kind, r, dl, AdaptStep::NoChange, min_dl, max_dl, max_err);
                match s_rk_inc(ks, ndl) {
                    None => {},
                    Some(inc) => match s_vadd(r, inc) {
                        None => {},
                        Some(r2) => {
                            if s_close(r2, seed, ndl) {
                                assert(seq![r2].last() == r2);
                            } else {
                                lemma_trace_closure(
                                    b,
                                    seed,
                                    r2,
                                    ndl,
                                    min_dl,
                                    max_dl,
                                    max_err,
                                    (fuel - 1) as nat,
                                );
                                let rest = s_trace(
                                    b,
                                    kind,
                                    seed,
                                    r2,
                                    ndl,
                                    min_dl,
                                    max_dl,
                                    max_err,
                                    (fuel - 1) as nat,
                                );
                                if rest.1 {
                                    assert((seq![r2] + rest.0).last() == rest.0.last());
                                    let d = choose|d: i64|
                                        min_dl <= d <= max_dl && #[trigger] s_close(
                                            rest.0.last(),
                                            seed,
                                            d,
                                        );
                                    assert(s_close((seq![r2] + rest.0).last(), seed, d));
                                }
                            }
                        },
                    },
                }
            },
        }
    }
}

/// Traces the isopotential curve through `r0`: the integrator follows
/// the perpendicular of the normalized field, always turning the same
/// way, until the curve closes on its seed (the returned flag), the step
/// budget runs out, or a point is undefined. The points are in trace
/// order; a caller wanting a closed polygon appends the seed when the
/// flag is set.
pub fn isopotential_points(
    body: &Body,
    r0: V2,
    min_dl: i64,
    max_dl: i64,
    max_err: i64,
    max_steps: usize,
) -> (res: (Vec<V2>, bool))
    requires
        1 <= min_dl <= max_dl,
        max_err >= 1,
    ensures
        (res.0@, res.1) == s_trace(
            *body,
            TraceKind::Isopotential,
            r0,
            r0,
            max_dl,
            min_dl,
            max_dl,
            max_err,
            max_steps as nat,
        ),
        res.0@.len() <= max_steps,
        res.1 ==> res.0@.len() >= 1 && exists|d: i64|
            min_dl <= d <= max_dl && #[trigger] s_close(res.0@.last(), r0, d),
{
    proof {
        lemma_trace_len(
            *body,
            TraceKind::Isopotential,
            r0,
            r0,
            max_dl,
            min_dl,
            max_dl,
            max_err,
            max_steps as nat,
        );
        lemma_trace_closure(*body, r0, r0, max_dl, min_dl, max_dl, max_err, max_steps as nat);
    }
    trace_dir(body, TraceKind::Isopotential, r0, min_dl, max_dl, max_err, max_steps)
}

/// Traces the field line through `r0`: one trace forward along the
/// normalized field and one backward against it, joined as
/// `reverse(forward) + [r0] + backward` — one polyline from the
/// low-potential end to the high-potential end, with the seed at the
/// junction. Each half stops once the potential magnitude passes
/// `FIELD_LINE_MAX_POTENTIAL`, its budget runs out, or a point is
/// undefined.
pub fn field_line_points(
    body: &Body,
    r0: V2,
    min_dl: i64,
    max_dl: i64,
    max_err: i64,
    max_steps: usize,
) -> (res: Vec<V2>)
    requires
        1 <= min_dl <= max_dl,
        max_err >= 1,
    ensures
        ({
            let fwd = s_trace(
                *body,
                TraceKind::FieldForward,
                r0,
                r0,
                max_dl,
                min_dl,
                max_dl,
                max_err,
                max_steps as nat,
            ).0;
            let bwd = s_trace(
                *body,
                TraceKind::FieldBackward,
                r0,
                r0,
                max_dl,
                min_dl,
                max_dl,
                max_err,
                max_steps as nat,
            ).0;
            &&& res@ == fwd.reverse() + seq![r0] + bwd
            &&& res@.len() == fwd.len() + 1 + bwd.len()
            &&& res@[fwd.len() as int] == r0
            &&& res@.len() <= 2 * max_steps + 1
        }),
{
    let fwdr = trace_dir(body, TraceKind::FieldForward, r0, min_dl, max_dl, max_err, max_steps);
    let bwdr = trace_dir(body, TraceKind::FieldBackward, r0, min_dl, max_dl, max_err, max_steps);
    let fwd = fwdr.0;
    let bwd = bwdr.0;
    proof {
        lemma_trace_len(
            *body,
            TraceKind::FieldForward,
            r0,
            r0,
            max_dl,
            min_dl,
            max_dl,
            max_err,
            max_steps as nat,
        );
        lemma_trace_len(
            *body,
            TraceKind::FieldBackward,
            r0,
            r0,
            max_dl,
            min_dl,
            max_dl,
            max_err,
            max_steps as nat,
        );
    }
    let n = fwd.len();
    let mut out: Vec<V2> = Vec::new();
    let mut i: usize = n;
    while i > 0
        invariant
            i <= n,
            n == fwd@.len(),
            out@.len() == n - i,
            forall|j: int| 0 <= j < out@.len() ==> out@[j] == fwd@[n - 1 - j],
        decreases i,
    {
        i = i - 1;
        let p = fwd[i];
        out.push(p);
    }
    proof {
        assert(out@ =~= fwd@.reverse());
    }
    out.push(r0);
    let ghost mid = out@;
    let mut j: usize = 0;
    while j < bwd.len()
        invariant
            j <= bwd@.len(),
            out@ == mid + bwd@.take(j as int),
            mid == fwd@.reverse() + seq![r0],
        decreases bwd@.len() - j,
    {
        let q = bwd[j];
        out.push(q);
        proof {
            assert(mid + bwd@.take(j as int) + seq![bwd@[j as int]] =~= mid + bwd@.take(
                j as int + 1,
            ));
        }
        j = j + 1;
    }
    proof {
        assert(bwd@.take(bwd@.len() as int) =~= bwd@);
        assert(out@ =~= fwd@.reverse() + seq![r0] + bwd@);
        assert(fwd@.reverse().len() == fwd@.len());
        assert(out@[fwd@.len() as int] == r0);
    }
    out
}

} // verus!
