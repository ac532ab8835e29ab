//! The isopotential-to-seed subdivider.
//!
//! Walks a traced contour accumulating a metric — plain arclength, or
//! arclength weighted by the field strength (the flux through the
//! contour) — and emits an interpolated point each time the accumulator
//! reaches the target spacing, resetting it by the overshoot. The
//! emitted points seed field-line traces.

use vstd::prelude::*;
use crate::fx::{tdiv, o_mul, fx_mul, lemma_tdiv_sign_mag};
use crate::vec2::{
    V2, s_vadd, s_vsub, s_vhalf, ov_add, ov_scale, o_len,
    v_add, v_sub, v_half, v_len, v_scale,
};
use crate::body::{Body, s_body_field};
use vstd::arithmetic::mul::lemma_mul_inequality;
use vstd::arithmetic::div_mod::{lemma_div_pos_is_pos, lemma_div_is_ordered, lemma_div_multiples_vanish};

verus! {

/// The metric that spaces seed points along a contour.
#[derive(Clone, Copy, PartialEq, Eq, Structural, Debug)]
pub enum SpacingMetric {
    /// Distance along the contour.
    Arclength,
    /// Distance weighted by the field magnitude at the segment midpoint:
    /// the flux through the contour piece, so seeds crowd where the
    /// field is strong.
    Flux,
}

/// The metric weight of one contour segment from `p` to `q`.
pub open spec fn s_seg_metric(b: Body, metric: SpacingMetric, p: V2, q: V2) -> Option<i64> {
    let len = o_len(s_vsub(q, p));
    match metric {
        SpacingMetric::Arclength => len,
        SpacingMetric::Flux => match s_vadd(p, q) {
            Some(s) => o_mul(len, o_len(s_body_field(b, s_vhalf(s)))),
            None => None,
        },
    }
}

/// The seed points one segment emits, entered with `carry` metric
/// already accumulated: each time the accumulator reaches the spacing,
/// the point at the matching linear fraction is emitted and the walk
/// continues from it with the leftover metric; the second component is
/// the carry handed to the next segment, `None` where an interpolation
/// left the representable range (which ends the whole walk).
pub open spec fn s_seg_seeds(p: V2, q: V2, m: i64, carry: i64, spacing: i64) -> (Seq<V2>, Option<
    i64,
>)
    decreases m,
{
    if spacing < 1 || carry < 0 || carry >= spacing || m < 0 {
        (Seq::empty(), Some(carry))
    } else if carry + m < spacing {
        (Seq::empty(), Some((carry + m) as i64))
    } else {
        let num = spacing - carry;
        let f = tdiv(num * 65536, m as int) as i64;
        match ov_add(Some(p), ov_scale(s_vsub(q, p), Some(f))) {
            None => (Seq::empty(), None),
            Some(t) => {
                let rest = s_seg_seeds(t, q, (m - num) as i64, 0, spacing);
                (seq![t] + rest.0, rest.1)
            },
        }
    }
}

/// The segment walk, executable; it appends the emitted seeds to `out`.
fn seg_seeds(p: V2, q: V2, m: i64, carry: i64, spacing: i64, out: &mut Vec<V2>) -> (r: Option<
    i64,
>)
    requires
        spacing >= 1,
        0 <= carry < spacing,
        m >= 0,
    ensures
        ({
            let s = s_seg_seeds(p, q, m, carry, spacing);
            final(out)@ == old(out)@ + s.0 && r == s.1
        }),
        r matches Some(c) ==> 0 <= c < spacing,
    decreases m,
{
    if (carry as i128) + (m as i128) < (spacing as i128) {
        proof {
            assert(out@ =~= out@ + Seq::<V2>::empty());
        }
        return Some(carry + m);
    }
    let num = spacing - carry;
    let fq: u128 = (num as u128) * 65536 / (m as u128);
    proof {
        lemma_tdiv_sign_mag(num as int * 65536, m as int);
        lemma_mul_inequality(num as int, m as int, 65536);
        lemma_div_is_ordered(num as int * 65536, m as int * 65536, m as int);
        assert((m as int * 65536) / m as int == 65536) by {
            lemma_div_multiples_vanish(65536, m as int);
            vstd::arithmetic::mul::lemma_mul_is_commutative(m as int, 65536);
        }
        lemma_div_pos_is_pos(num as int * 65536, m as int);
    }
    let f = fq as i64;
    let tv: Option<V2> = match v_sub(q, p) {
        Some(d) => match v_scale(d, f) {
            Some(sc) => v_add(p, sc),
            None => None,
        },
        None => None,
    };
    match tv {
        None => {
            proof {
                assert(out@ =~= out@ + Seq::<V2>::empty());
            }
            None
        },
        Some(t) => {
            let ghost before = out@;
            out.push(t);
            let rest = seg_seeds(t, q, m - num, 0, spacing, out);
            proof {
                let s = s_seg_seeds(t, q, (m - num) as i64, 0, spacing);
                assert(before + (seq![t] + s.0) =~= (before + seq![t]) + s.0);
            }
            rest
        },
    }
}

/// The metric of one segment, executable.
fn seg_metric(b: &Body, metric: SpacingMetric, p: V2, q: V2) -> (r: Option<i64>)
    ensures
        r == s_seg_metric(*b, metric, p, q),
{
    let d = v_sub(q, p)?;
    let len = v_len(d)?;
    match metric {
        SpacingMetric::Arclength => Some(len),
        SpacingMetric::Flux => {
            let s = v_add(p, q)?;
            let mid = v_half(s);
            let fld = b.e_field(mid)?;
            let fm = v_len(fld)?;
            fx_mul(len, fm)
        },
    }
}

/// The seeds emitted from the consecutive pairs of `pts` starting at the
/// pair `(i - 1, i)`, entered with `carry` accumulated metric. An
/// undefined segment metric or interpolation ends the walk with the
/// seeds emitted so far.
pub open spec fn s_subdivide(
    b: Body,
    metric: SpacingMetric,
    pts: Seq<V2>,
    spacing: i64,
    i: int,
    carry: i64,
) -> Seq<V2>
    decreases pts.len() - i,
{
    if i < 1 || i >= pts.len() {
        Seq::empty()
    } else {
        match s_seg_metric(b, metric, pts[i - 1], pts[i]) {
            None => Seq::empty(),
            Some(m) => if m < 0 {
                Seq::empty()
            } else {
                let seg = s_seg_seeds(pts[i - 1], pts[i], m, carry, spacing);
                match seg.1 {
                    None => seg.0,
                    Some(c2) => if 0 <= c2 < spacing {
                        seg.0 + s_subdivide(b, metric, pts, spacing, i + 1, c2)
                    } else {
                        seg.0
                    },
                }
            },
        }
    }
}

/// Samples a traced isopotential at the target spacing of the chosen
/// metric, returning the interpolated seed points in contour order.
pub fn subdivide_isopotential(
    body: &Body,
    points: &Vec<V2>,
    spacing: i64,
    metric: SpacingMetric,
) -> (r: Vec<V2>)
    requires
        spacing >= 1,
    ensures
        r@ == s_subdivide(*body, metric, points@, spacing, 1, 0),
{
    let ghost total = s_subdivide(*body, metric, points@, spacing, 1, 0);
    let mut out: Vec<V2> = Vec::new();
    let mut carry: i64 = 0;
    let mut i: usize = 1;
    loop
        invariant_except_break
            1 <= i,
            spacing >= 1,
            0 <= carry < spacing,
            total == out@ + s_subdivide(*body, metric, points@, spacing, i as int, carry),
        ensures
            out@ == total,
        decreases points@.len() - i,
    {
        if i >= points.len() {
            proof {
                assert(out@ + Seq::<V2>::empty() =~= out@);
            }
            break ;
        }
        let p = points[i - 1];
        let q = points[i];
        let mo = seg_metric(body, metric, p, q);
        match mo {
            None => {
                proof {
                    assert(out@ + Seq::<V2>::empty() =~= out@);
                }
                break ;
            },
            Some(m) => {
                if m < 0 {
                    proof {
                        assert(out@ + Seq::<V2>::empty() =~= out@);
                    }
                    break ;
                }
                let ghost seg = s_seg_seeds(p, q, m, carry, spacing);
                let ghost before = out@;
                match seg_seeds(p, q, m, carry, spacing, &mut out) {
                    None => {
                        proof {
                            assert(before + seg.0 =~= out@);
                        }
                        break ;
                    },
                    Some(c2) => {
                        proof {
                            assert(before + (seg.0 + s_subdivide(
                                *body,
                                metric,
                                points@,
                                spacing,
                                i as int + 1,
                                c2,
                            )) =~= (before + seg.0) + s_subdivide(
                                *body,
                                metric,
                                points@,
                                spacing,
                                i as int + 1,
                                c2,
                            ));
                        }
                        carry = c2;
                    },
                }
            },
        }
        i = i + 1;
    }
    out
}

} // verus!
