//! Field sources.
//!
//! Five primitives — point charge, dipole, regularized circle charge,
//! finite charged segment, uniform background field — and their
//! superposition as a closed variant type, `Body`. Every source answers
//! `pos`, `e_field`, `potential` and `update`; the composite forwards
//! them to its members.
//!
//! A field or potential query answers `None` where the closed form is
//! singular (sampling a point charge at its own position) or where the
//! fixed-point range is left; tracers treat such a value as the end of
//! the curve.

use vstd::prelude::*;
use crate::fx::{
    ONE, tdiv, s_mul, s_div, o_add, o_sub, o_mul, o_div, o_neg, o_half, o_dbl, o_ln, o_atan_ratio,
    fx_add, fx_sub, fx_neg, fx_mul, fx_div, fx_ln, fx_atan_ratio, fx_half, fx_dbl,
};
use crate::vec2::{
    V2, s_vadd, s_vsub, s_vperp, s_vscale, s_vdivs, s_vlen_sq, s_vdot, s_vnorm, s_vdivn, s_sq_sum,
    ov_add, ov_sub, ov_perp, ov_scale, ov_divs, ov_halfv, ov_pack, ov_norm,
    o_len_sq, o_len, o_dot,
    v_add, v_sub, v_perp, v_scale, v_divs, v_len_sq, v_len, v_dot, v_norm,
    v_half, v_divn,
};

verus! {

/// Half of one unit: the fixed-point value of `0.5`.
pub const HALF: i64 = 32768;

// ------------------------------------------------------------------
// point charge
// ------------------------------------------------------------------

/// A charged point mass.
#[derive(Clone, Copy, PartialEq, Eq, Structural, Debug)]
pub struct PointCharge {
    pub charge: i64,
    pub mass: i64,
    pub pos: V2,
    pub vel: V2,
}

/// Field of a point charge: `(p - pos) * charge / |p - pos|^2`,
/// undefined at the charge itself.
pub open spec fn s_point_field(charge: i64, pos: V2, p: V2) -> Option<V2> {
    let r = s_vsub(p, pos);
    ov_divs(ov_scale(r, Some(charge)), o_len_sq(r))
}

/// Potential of a point charge: `-charge * ln |p - pos|`, undefined at
/// the charge itself.
pub open spec fn s_point_potential(charge: i64, pos: V2, p: V2) -> Option<i64> {
    o_neg(o_mul(Some(charge), o_ln(o_len(s_vsub(p, pos)))))
}

/// One semi-implicit kinematic step: `dv = dt * e * charge / mass`,
/// `pos += (vel + dv/2) * dt`, `vel += dv`. The field is sampled once at
/// the pre-step position, an approximation rather than a true symplectic
/// integrator. A step that leaves the representable range leaves the
/// body unchanged.
pub open spec fn s_kinematic(pos: V2, vel: V2, charge: i64, mass: i64, e: V2, dt: i64) -> (V2, V2) {
    let dv = ov_divs(ov_scale(ov_scale(Some(e), Some(dt)), Some(charge)), Some(mass));
    let npos = ov_add(Some(pos), ov_scale(ov_add(Some(vel), ov_scale(dv, Some(HALF))), Some(dt)));
    let nvel = ov_add(Some(vel), dv);
    match (npos, nvel) {
        (Some(a), Some(b)) => (a, b),
        _ => (pos, vel),
    }
}

/// The executable kinematic step.
fn kinematic(pos: V2, vel: V2, charge: i64, mass: i64, e: V2, dt: i64) -> (r: (V2, V2))
    ensures
        r == s_kinematic(pos, vel, charge, mass, e, dt),
{
    let dvo: Option<V2> = match v_scale(e, dt) {
        Some(a) => match v_scale(a, charge) {
            Some(b) => v_divs(b, mass),
            None => None,
        },
        None => None,
    };
    let nposo: Option<V2> = match dvo {
        Some(dv) => match v_scale(dv, HALF) {
            Some(h) => match v_add(vel, h) {
                Some(s) => match v_scale(s, dt) {
                    Some(sd) => v_add(pos, sd),
                    None => None,
                },
                None => None,
            },
            None => None,
        },
        None => None,
    };
    let nvelo: Option<V2> = match dvo {
        Some(dv) => v_add(vel, dv),
        None => None,
    };
    match (nposo, nvelo) {
        (Some(a), Some(b)) => (a, b),
        _ => (pos, vel),
    }
}

/// The point charge after one kinematic step.
pub open spec fn s_point_update(b: PointCharge, e: V2, dt: i64) -> PointCharge {
    let s = s_kinematic(b.pos, b.vel, b.charge, b.mass, e, dt);
    PointCharge { charge: b.charge, mass: b.mass, pos: s.0, vel: s.1 }
}

impl PointCharge {
    pub fn pos(&self) -> (r: V2)
        ensures
            r == self.pos,
    {
        self.pos
    }

    pub fn e_field(&self, p: V2) -> (r: Option<V2>)
        ensures
            r == s_point_field(self.charge, self.pos, p),
    {
        let rv = v_sub(p, self.pos)?;
        let num = v_scale(rv, self.charge)?;
        let r2 = v_len_sq(rv)?;
        v_divs(num, r2)
    }

    pub fn potential(&self, p: V2) -> (r: Option<i64>)
        ensures
            r == s_point_potential(self.charge, self.pos, p),
    {
        let rv = v_sub(p, self.pos)?;
        let len = v_len(rv)?;
        if len < 1 {
            return None;
        }
        let l = fx_ln(len)?;
        let m = fx_mul(self.charge, l)?;
        fx_neg(m)
    }

    pub fn update(self, e: V2, dt: i64) -> (r: PointCharge)
        ensures
            r == s_point_update(self, e, dt),
    {
        let s = kinematic(self.pos, self.vel, self.charge, self.mass, e, dt);
        PointCharge { charge: self.charge, mass: self.mass, pos: s.0, vel: s.1 }
    }
}

// ------------------------------------------------------------------
// regularized circle charge
// ------------------------------------------------------------------

/// A charge spread over a disc of the given radius: its field and
/// potential stay finite everywhere.
#[derive(Clone, Copy, PartialEq, Eq, Structural, Debug)]
pub struct CircleCharge {
    pub charge: i64,
    pub mass: i64,
    pub radius: i64,
    pub pos: V2,
    pub vel: V2,
}

/// The exterior field branch of the circle charge: as a point charge,
/// `r * charge / |r|^2`.
pub open spec fn s_circle_field_outside(charge: i64, r: Option<V2>, r2: i64) -> Option<V2> {
    ov_divs(ov_scale(r, Some(charge)), Some(r2))
}

/// The interior field branch: growing linearly, `r * charge / r0^2`.
pub open spec fn s_circle_field_inside(charge: i64, r: Option<V2>, r02: i64) -> Option<V2> {
    ov_divs(ov_scale(r, Some(charge)), Some(r02))
}

/// Field of a circle charge: the exterior branch at or beyond the
/// radius, the interior branch within it. The branches agree where
/// `|r|^2 == r0^2`.
pub open spec fn s_circle_field(charge: i64, radius: i64, pos: V2, p: V2) -> Option<V2> {
    let r = s_vsub(p, pos);
    match (o_len_sq(r), s_mul(radius, radius)) {
        (Some(r2), Some(r02)) => if r2 >= r02 {
            s_circle_field_outside(charge, r, r2)
        } else {
            s_circle_field_inside(charge, r, r02)
        },
        _ => None,
    }
}

/// The exterior potential branch of the circle charge:
/// `charge * ((ln r0^2 - ln |r|^2) - 1) / 2`, whose negated gradient is
/// the exterior field.
pub open spec fn s_circle_pot_outside(charge: i64, r2: i64, r02: i64) -> Option<i64> {
    o_mul(Some(charge), o_half(o_sub(o_sub(o_ln(Some(r02)), o_ln(Some(r2))), Some(ONE))))
}

/// The interior potential branch: `charge * (-(|r|^2 / (2 r0^2)))`,
/// whose negated gradient is the interior field.
pub open spec fn s_circle_pot_inside(charge: i64, r2: i64, r02: i64) -> Option<i64> {
    o_mul(Some(charge), o_neg(o_div(Some(r2), o_dbl(Some(r02)))))
}

/// Potential of a circle charge: the exterior branch at or beyond the
/// radius, the interior branch within it. The branches agree where
/// `|r|^2 == r0^2`.
pub open spec fn s_circle_potential(charge: i64, radius: i64, pos: V2, p: V2) -> Option<i64> {
    let r = s_vsub(p, pos);
    match (o_len_sq(r), s_mul(radius, radius)) {
        (Some(r2), Some(r02)) => if r2 >= r02 {
            s_circle_pot_outside(charge, r2, r02)
        } else {
            s_circle_pot_inside(charge, r2, r02)
        },
        _ => None,
    }
}

/// The circle charge after one kinematic step.
pub open spec fn s_circle_update(b: CircleCharge, e: V2, dt: i64) -> CircleCharge {
    let s = s_kinematic(b.pos, b.vel, b.charge, b.mass, e, dt);
    CircleCharge { charge: b.charge, mass: b.mass, radius: b.radius, pos: s.0, vel: s.1 }
}

impl CircleCharge {
    pub fn pos(&self) -> (r: V2)
        ensures
            r == self.pos,
    {
        self.pos
    }

    pub fn e_field(&self, p: V2) -> (r: Option<V2>)
        ensures
            r == s_circle_field(self.charge, self.radius, self.pos, p),
    {
        let rv = v_sub(p, self.pos)?;
        let r2 = v_len_sq(rv)?;
        let r02 = fx_mul(self.radius, self.radius)?;
        let num = v_scale(rv, self.charge)?;
        if r2 >= r02 {
            v_divs(num, r2)
        } else {
            v_divs(num, r02)
        }
    }

    pub fn potential(&self, p: V2) -> (r: Option<i64>)
        ensures
            r == s_circle_potential(self.charge, self.radius, self.pos, p),
    {
        let rv = v_sub(p, self.pos)?;
        let r2 = v_len_sq(rv)?;
        let r02 = fx_mul(self.radius, self.radius)?;
        if r2 >= r02 {
            if r02 < 1 || r2 < 1 {
                return None;
            }
            let l0 = fx_ln(r02)?;
            let l = fx_ln(r2)?;
            let t = fx_sub(l0, l)?;
            let u = fx_sub(t, ONE)?;
            fx_mul(self.charge, fx_half(u))
        } else {
            let d = fx_dbl(r02)?;
            let q = fx_div(r2, d)?;
            let nq = fx_neg(q)?;
            fx_mul(self.charge, nq)
        }
    }

    pub fn update(self, e: V2, dt: i64) -> (r: CircleCharge)
        ensures
            r == s_circle_update(self, e, dt),
    {
        let s = kinematic(self.pos, self.vel, self.charge, self.mass, e, dt);
        CircleCharge {
            charge: self.charge,
            mass: self.mass,
            radius: self.radius,
            pos: s.0,
            vel: s.1,
        }
    }
}

// ------------------------------------------------------------------
// uniform background field
// ------------------------------------------------------------------

/// A constant field covering the whole plane; immobile, with the origin
/// as its nominal position.
#[derive(Clone, Copy, PartialEq, Eq, Structural, Debug)]
pub struct GlobalField {
    pub field: V2,
}

/// Potential of the uniform field: `-(p . field)`.
pub open spec fn s_global_potential(field: V2, p: V2) -> Option<i64> {
    o_neg(s_vdot(p, field))
}

impl GlobalField {
    pub fn pos(&self) -> (r: V2)
        ensures
            r == (V2 { x: 0, y: 0 }),
    {
        V2 { x: 0, y: 0 }
    }

    pub fn e_field(&self, _p: V2) -> (r: Option<V2>)
        ensures
            r == Some(self.field),
    {
        Some(self.field)
    }

    pub fn potential(&self, p: V2) -> (r: Option<i64>)
        ensures
            r == s_global_potential(self.field, p),
    {
        let d = v_dot(p, self.field)?;
        fx_neg(d)
    }

    pub fn update(self, _e: V2, _dt: i64) -> (r: GlobalField)
        ensures
            r == self,
    {
        self
    }
}

// ------------------------------------------------------------------
// finite charged segment
// ------------------------------------------------------------------

/// A uniformly charged straight segment; immobile. `axis` is the unit
/// vector from `start` toward `end`, standing in for the rotation into
/// the segment's local frame, and `charge_density` the charge per unit
/// length.
#[derive(Clone, Copy, PartialEq, Eq, Structural, Debug)]
pub struct LineCharge {
    pub start: V2,
    pub end: V2,
    pub center: V2,
    pub length: i64,
    pub charge_density: i64,
    pub axis: V2,
}

/// What the segment constructor builds: `None` for a degenerate
/// zero-length segment (whose charge density is undefined) or for
/// endpoints whose derived values leave the representable range.
pub open spec fn s_line_new(start: V2, end: V2, charge: i64) -> Option<LineCharge> {
    let d = s_vsub(end, start);
    let len = o_len(d);
    let dens = o_div(Some(charge), len);
    let ax = ov_norm(d);
    let c = ov_halfv(s_vadd(start, end));
    match (len, dens, ax, c) {
        (Some(l), Some(dn), Some(a), Some(cc)) => Some(LineCharge {
            start,
            end,
            center: cc,
            length: l,
            charge_density: dn,
            axis: a,
        }),
        _ => None,
    }
}

/// The local abscissa of `p`: the component of `p - center` along the
/// segment's axis.
pub open spec fn s_line_x(b: LineCharge, p: V2) -> Option<i64> {
    o_dot(s_vsub(p, b.center), Some(b.axis))
}

/// The local ordinate of `p`: the component of `p - center` across the
/// segment's axis.
pub open spec fn s_line_y(b: LineCharge, p: V2) -> Option<i64> {
    o_dot(s_vsub(p, b.center), s_vperp(b.axis))
}

/// The arctangent sum of the finite-line integral:
/// `atan((d + x) / y) + atan((d - x) / y)` with `d` the half length.
pub open spec fn s_line_theta(x: Option<i64>, y: Option<i64>, d: Option<i64>) -> Option<i64> {
    o_add(o_atan_ratio(o_add(d, x), y), o_atan_ratio(o_sub(d, x), y))
}

/// Field of the segment, rotated back into world coordinates: along the
/// axis `density * -(ln(db^2) - ln(da^2)) / 2`, across it
/// `density * theta`, with `da`, `db` the distances to the two endpoints.
pub open spec fn s_line_field(b: LineCharge, p: V2) -> Option<V2> {
    let x = s_line_x(b, p);
    let y = s_line_y(b, p);
    let d = o_half(Some(b.length));
    let da2 = o_len_sq(ov_pack(o_add(x, d), y));
    let db2 = o_len_sq(ov_pack(o_sub(x, d), y));
    let theta = s_line_theta(x, y, d);
    let ex = o_mul(Some(b.charge_density), o_neg(o_half(o_sub(o_ln(db2), o_ln(da2)))));
    let ey = o_mul(Some(b.charge_density), theta);
    ov_add(ov_scale(Some(b.axis), ex), ov_scale(ov_perp(Some(b.axis)), ey))
}

/// Potential of the segment:
/// `density * (ln(db^2)(x - d) - ln(da^2)(x + d) - 2 y theta + 4 d) / 2`.
pub open spec fn s_line_potential(b: LineCharge, p: V2) -> Option<i64> {
    let x = s_line_x(b, p);
    let y = s_line_y(b, p);
    let d = o_half(Some(b.length));
    let da2 = o_len_sq(ov_pack(o_add(x, d), y));
    let db2 = o_len_sq(ov_pack(o_sub(x, d), y));
    let theta = s_line_theta(x, y, d);
    let t1 = o_mul(o_ln(db2), o_sub(x, d));
    let t2 = o_mul(o_ln(da2), o_add(x, d));
    let t3 = o_mul(o_dbl(y), theta);
    let t4 = o_dbl(o_dbl(d));
    o_mul(Some(b.charge_density), o_half(o_add(o_sub(o_sub(t1, t2), t3), t4)))
}

/// The executable logarithm under the lifted guard.
fn ln_lifted(a: i64) -> (r: Option<i64>)
    ensures
        r == o_ln(Some(a)),
{
    if a < 1 {
        None
    } else {
        fx_ln(a)
    }
}

impl LineCharge {
    /// Builds the segment with its derived center, length, density and
    /// axis; `None` for a degenerate segment.
    pub fn new(start: V2, end: V2, charge: i64) -> (r: Option<LineCharge>)
        ensures
            r == s_line_new(start, end, charge),
    {
        let d = v_sub(end, start)?;
        let len = v_len(d)?;
        let dens = fx_div(charge, len)?;
        let ax = v_norm(d)?;
        let sum = v_add(start, end)?;
        let c = v_half(sum);
        Some(LineCharge { start, end, center: c, length: len, charge_density: dens, axis: ax })
    }

    pub fn pos(&self) -> (r: V2)
        ensures
            r == self.center,
    {
        self.center
    }

    /// The local coordinates of `p`, shared by field and potential.
    fn local(&self, p: V2) -> (r: Option<(i64, i64, i64)>)
        ensures
            r matches Some(t) ==> Some(t.0) == s_line_x(*self, p) && Some(t.1) == s_line_y(
                *self,
                p,
            ) && Some(t.2) == o_half(Some(self.length)),
            r is None ==> s_line_x(*self, p) is None || s_line_y(*self, p) is None,
    {
        let w = v_sub(p, self.center)?;
        let x = v_dot(w, self.axis)?;
        let pax = v_perp(self.axis)?;
        let y = v_dot(w, pax)?;
        Some((x, y, fx_half(self.length)))
    }

    pub fn e_field(&self, p: V2) -> (r: Option<V2>)
        ensures
            r == s_line_field(*self, p),
    {
        let (x, y, d) = self.local(p)?;
        let xpd = fx_add(x, d)?;
        let xmd = fx_sub(x, d)?;
        let da2 = v_len_sq(V2 { x: xpd, y })?;
        let db2 = v_len_sq(V2 { x: xmd, y })?;
        let dpx = fx_add(d, x)?;
        let dmx = fx_sub(d, x)?;
        let theta = fx_add(fx_atan_ratio(dpx, y), fx_atan_ratio(dmx, y))?;
        let lna = ln_lifted(da2)?;
        let lnb = ln_lifted(db2)?;
        let lnd = fx_sub(lnb, lna)?;
        let exs = fx_neg(fx_half(lnd))?;
        let ex = fx_mul(self.charge_density, exs)?;
        let ey = fx_mul(self.charge_density, theta)?;
        let ua = v_scale(self.axis, ex)?;
        let pax = v_perp(self.axis)?;
        let ub = v_scale(pax, ey)?;
        v_add(ua, ub)
    }

    pub fn potential(&self, p: V2) -> (r: Option<i64>)
        ensures
            r == s_line_potential(*self, p),
    {
        let (x, y, d) = self.local(p)?;
        let xpd = fx_add(x, d)?;
        let xmd = fx_sub(x, d)?;
        let da2 = v_len_sq(V2 { x: xpd, y })?;
        let db2 = v_len_sq(V2 { x: xmd, y })?;
        let dpx = fx_add(d, x)?;
        let dmx = fx_sub(d, x)?;
        let theta = fx_add(fx_atan_ratio(dpx, y), fx_atan_ratio(dmx, y))?;
        let lna = ln_lifted(da2)?;
        let lnb = ln_lifted(db2)?;
        let t1 = fx_mul(lnb, xmd)?;
        let t2 = fx_mul(lna, xpd)?;
        let y2 = fx_dbl(y)?;
        let t3 = fx_mul(y2, theta)?;
        let d2 = fx_dbl(d)?;
        let t4 = fx_dbl(d2)?;
        let s1 = fx_sub(t1, t2)?;
        let s2 = fx_sub(s1, t3)?;
        let s3 = fx_add(s2, t4)?;
        fx_mul(self.charge_density, fx_half(s3))
    }

    pub fn update(self, _e: V2, _dt: i64) -> (r: LineCharge)
        ensures
            r == self,
    {
        self
    }
}

// ------------------------------------------------------------------
// dipole
// ------------------------------------------------------------------

/// Two opposite point charges held at a fixed unit offset around a
/// center. The pair is rigid: the shared ambient field pulls its halves
/// equally in opposite directions, so the net force is zero and the
/// dipole only translates at its current velocity.
#[derive(Clone, Copy, PartialEq, Eq, Structural, Debug)]
pub struct Dipole {
    pub q1: PointCharge,
    pub q2: PointCharge,
    pub pos: V2,
}

/// What the dipole constructor builds: the positive half at
/// `pos + dir/(2|dir|)`, the negative at `pos - dir/(2|dir|)`, each with
/// half the mass. `None` for a zero direction or an unrepresentable
/// offset.
pub open spec fn s_dipole_new(dipole: i64, mass: i64, dir: V2, pos: V2, vel: V2) -> Option<
    Dipole,
> {
    let off = ov_scale(s_vnorm(dir), Some(HALF));
    let p1 = ov_add(Some(pos), off);
    let p2 = ov_sub(Some(pos), off);
    let nq = o_neg(Some(dipole));
    let hm = tdiv(mass as int, 2) as i64;
    match (p1, p2, nq) {
        (Some(a), Some(b), Some(n)) => Some(Dipole {
            q1: PointCharge { charge: dipole, mass: hm, pos: a, vel },
            q2: PointCharge { charge: n, mass: hm, pos: b, vel },
            pos,
        }),
        _ => None,
    }
}

/// Field of the dipole: the superposed fields of its two halves.
pub open spec fn s_dipole_field(b: Dipole, p: V2) -> Option<V2> {
    ov_add(
        s_point_field(b.q1.charge, b.q1.pos, p),
        s_point_field(b.q2.charge, b.q2.pos, p),
    )
}

/// Potential of the dipole: the superposed potentials of its two halves.
pub open spec fn s_dipole_potential(b: Dipole, p: V2) -> Option<i64> {
    o_add(
        s_point_potential(b.q1.charge, b.q1.pos, p),
        s_point_potential(b.q2.charge, b.q2.pos, p),
    )
}

/// The dipole after one step: a rigid translation by `vel * dt`, or
/// unchanged where that leaves the representable range.
pub open spec fn s_dipole_update(b: Dipole, dt: i64) -> Dipole {
    let delta = ov_scale(Some(b.q1.vel), Some(dt));
    match (ov_add(Some(b.pos), delta), ov_add(Some(b.q1.pos), delta), ov_add(
        Some(b.q2.pos),
        delta,
    )) {
        (Some(c), Some(a), Some(bb)) => Dipole {
            q1: PointCharge { charge: b.q1.charge, mass: b.q1.mass, pos: a, vel: b.q1.vel },
            q2: PointCharge { charge: b.q2.charge, mass: b.q2.mass, pos: bb, vel: b.q2.vel },
            pos: c,
        },
        _ => b,
    }
}

impl Dipole {
    /// Builds the rigid pair from a dipole charge, a total mass, a
    /// direction for the pair's axis, a center and a velocity.
    pub fn new(dipole: i64, mass: i64, dir: V2, pos: V2, vel: V2) -> (r: Option<Dipole>)
        ensures
            r == s_dipole_new(dipole, mass, dir, pos, vel),
    {
        let u = v_norm(dir)?;
        let off = v_scale(u, HALF)?;
        let p1 = v_add(pos, off)?;
        let p2 = v_sub(pos, off)?;
        let n = fx_neg(dipole)?;
        let hm = fx_half(mass);
        Some(
            Dipole {
                q1: PointCharge { charge: dipole, mass: hm, pos: p1, vel },
                q2: PointCharge { charge: n, mass: hm, pos: p2, vel },
                pos,
            },
        )
    }

    pub fn pos(&self) -> (r: V2)
        ensures
            r == self.pos,
    {
        self.pos
    }

    pub fn e_field(&self, p: V2) -> (r: Option<V2>)
        ensures
            r == s_dipole_field(*self, p),
    {
        let f1 = self.q1.e_field(p)?;
        let f2 = self.q2.e_field(p)?;
        v_add(f1, f2)
    }

    pub fn potential(&self, p: V2) -> (r: Option<i64>)
        ensures
            r == s_dipole_potential(*self, p),
    {
        let v1 = self.q1.potential(p)?;
        let v2 = self.q2.potential(p)?;
        fx_add(v1, v2)
    }

    pub fn update(self, _e: V2, dt: i64) -> (r: Dipole)
        ensures
            r == s_dipole_update(self, dt),
    {
        let delta = match v_scale(self.q1.vel, dt) {
            Some(d) => d,
            None => {
                return self;
            },
        };
        match (v_add(self.pos, delta), v_add(self.q1.pos, delta), v_add(self.q2.pos, delta)) {
            (Some(c), Some(a), Some(b)) => Dipole {
                q1: PointCharge {
                    charge: self.q1.charge,
                    mass: self.q1.mass,
                    pos: a,
                    vel: self.q1.vel,
                },
                q2: PointCharge {
                    charge: self.q2.charge,
                    mass: self.q2.mass,
                    pos: b,
                    vel: self.q2.vel,
                },
                pos: c,
            },
            _ => self,
        }
    }
}

// ------------------------------------------------------------------
// the closed variant type and the composite
// ------------------------------------------------------------------

/// Any field source: one of the five primitives, or a composite owning
/// an ordered sequence of sources whose field and potential superpose.
pub enum Body {
    Point(PointCharge),
    Dipole(Dipole),
    Circle(CircleCharge),
    Global(GlobalField),
    Line(LineCharge),
    Composite(Vec<Body>),
}

/// The field of a source at `p`; for a composite, the superposition
/// (elementwise sum) of its members' fields.
pub open spec fn s_body_field(b: Body, p: V2) -> Option<V2>
    decreases b,
{
    match b {
        Body::Point(s) => s_point_field(s.charge, s.pos, p),
        Body::Dipole(s) => s_dipole_field(s, p),
        Body::Circle(s) => s_circle_field(s.charge, s.radius, s.pos, p),
        Body::Global(s) => Some(s.field),
        Body::Line(s) => s_line_field(s, p),
        Body::Composite(v) => s_fields_sum(v@, p),
    }
}

/// The superposed fields of a sequence of sources.
pub open spec fn s_fields_sum(ms: Seq<Body>, p: V2) -> Option<V2>
    decreases ms,
{
    if ms.len() == 0 {
        Some(V2 { x: 0, y: 0 })
    } else {
        ov_add(s_body_field(ms[0], p), s_fields_sum(ms.drop_first(), p))
    }
}

/// The potential of a source at `p`; for a composite, the superposition
/// of its members' potentials.
pub open spec fn s_body_potential(b: Body, p: V2) -> Option<i64>
    decreases b,
{
    match b {
        Body::Point(s) => s_point_potential(s.charge, s.pos, p),
        Body::Dipole(s) => s_dipole_potential(s, p),
        Body::Circle(s) => s_circle_potential(s.charge, s.radius, s.pos, p),
        Body::Global(s) => s_global_potential(s.field, p),
        Body::Line(s) => s_line_potential(s, p),
        Body::Composite(v) => s_potentials_sum(v@, p),
    }
}

/// The superposed potentials of a sequence of sources.
pub open spec fn s_potentials_sum(ms: Seq<Body>, p: V2) -> Option<i64>
    decreases ms,
{
    if ms.len() == 0 {
        Some(0i64)
    } else {
        o_add(s_body_potential(ms[0], p), s_potentials_sum(ms.drop_first(), p))
    }
}

/// The position of a source; for a composite, the arithmetic mean of its
/// members' positions, undefined for an empty composite.
pub open spec fn s_body_pos(b: Body) -> Option<V2>
    decreases b,
{
    match b {
        Body::Point(s) => Some(s.pos),
        Body::Dipole(s) => Some(s.pos),
        Body::Circle(s) => Some(s.pos),
        Body::Global(_) => Some(V2 { x: 0, y: 0 }),
        Body::Line(s) => Some(s.center),
        Body::Composite(v) => if v@.len() == 0 {
            None
        } else {
            match s_pos_sum(v@) {
                Some(t) => Some(s_vdivn(t, v@.len() as int)),
                None => None,
            }
        },
    }
}

/// The summed positions of a sequence of sources.
pub open spec fn s_pos_sum(ms: Seq<Body>) -> Option<V2>
    decreases ms,
{
    if ms.len() == 0 {
        Some(V2 { x: 0, y: 0 })
    } else {
        match s_body_pos(ms[0]) {
            Some(p) => ov_add(Some(p), s_pos_sum(ms.drop_first())),
            None => None,
        }
    }
}

/// Relates a source to its value after one kinematic step under the
/// ambient field `e`: each primitive steps by its own rule, and a
/// composite forwards the same ambient field to every member unchanged
/// (pairwise interactions between members are the driver's concern).
pub open spec fn s_updated(b: Body, e: V2, dt: i64, r: Body) -> bool
    decreases b,
{
    match b {
        Body::Point(s) => r == Body::Point(s_point_update(s, e, dt)),
        Body::Dipole(s) => r == Body::Dipole(s_dipole_update(s, dt)),
        Body::Circle(s) => r == Body::Circle(s_circle_update(s, e, dt)),
        Body::Global(s) => r == Body::Global(s),
        Body::Line(s) => r == Body::Line(s),
        Body::Composite(v) => match r {
            Body::Composite(w) => w@.len() == v@.len() && (forall|i: int|
                0 <= i < v@.len() ==> s_updated(v@[i], e, dt, #[trigger] w@[i])),
            _ => false,
        },
    }
}

impl Body {
    /// The source's position: a primitive's own, the mean of a
    /// composite's members'.
    pub fn pos(&self) -> (r: Option<V2>)
        ensures
            r == s_body_pos(*self),
        decreases *self,
    {
        match self {
            Body::Point(s) => Some(s.pos()),
            Body::Dipole(s) => Some(s.pos()),
            Body::Circle(s) => Some(s.pos()),
            Body::Global(s) => Some(s.pos()),
            Body::Line(s) => Some(s.pos()),
            Body::Composite(v) => {
                if v.len() == 0 {
                    return None;
                }
                let n = v.len();
                let mut i: usize = n;
                let mut acc: Option<V2> = Some(V2 { x: 0, y: 0 });
                while i > 0
                    invariant
                        i <= n,
                        n == v@.len(),
                        acc == s_pos_sum(v@.skip(i as int)),
                        *self == Body::Composite(*v),
                    decreases i,
                {
                    i = i - 1;
                    let sub = &v[i];
                    proof {
                        assert(decreases_to!(*self => self->Composite_0));
                        assert(self->Composite_0 == *v);
                        assert(decreases_to!(*v => v@));
                        assert(decreases_to!(v@ => v@[i as int]));
                    }
                    let po = sub.pos();
                    acc = match (po, acc) {
                        (Some(a), Some(b)) => v_add(a, b),
                        _ => None,
                    };
                    proof {
                        assert(v@.skip(i as int).drop_first() =~= v@.skip(i as int + 1));
                        assert(v@.skip(i as int)[0] == v@[i as int]);
                    }
                }
                proof {
                    assert(v@.skip(0) =~= v@);
                }
                match acc {
                    Some(t) => Some(v_divn(t, n)),
                    None => None,
                }
            },
        }
    }

    /// The field at `p`.
    pub fn e_field(&self, p: V2) -> (r: Option<V2>)
        ensures
            r == s_body_field(*self, p),
        decreases *self,
    {
        match self {
            Body::Point(s) => s.e_field(p),
            Body::Dipole(s) => s.e_field(p),
            Body::Circle(s) => s.e_field(p),
            Body::Global(s) => s.e_field(p),
            Body::Line(s) => s.e_field(p),
            Body::Composite(v) => {
                let mut i: usize = v.len();
                let mut acc: Option<V2> = Some(V2 { x: 0, y: 0 });
                while i > 0
                    invariant
                        i <= v@.len(),
                        acc == s_fields_sum(v@.skip(i as int), p),
                        *self == Body::Composite(*v),
                    decreases i,
                {
                    i = i - 1;
                    let sub = &v[i];
                    proof {
                        assert(decreases_to!(*self => self->Composite_0));
                        assert(self->Composite_0 == *v);
                        assert(decreases_to!(*v => v@));
                        assert(decreases_to!(v@ => v@[i as int]));
                    }
                    let fo = sub.e_field(p);
                    acc = match (fo, acc) {
                        (Some(a), Some(b)) => v_add(a, b),
                        _ => None,
                    };
                    proof {
                        assert(v@.skip(i as int).drop_first() =~= v@.skip(i as int + 1));
                        assert(v@.skip(i as int)[0] == v@[i as int]);
                    }
                }
                proof {
                    assert(v@.skip(0) =~= v@);
                }
                acc
            },
        }
    }

    /// The potential at `p`.
    pub fn potential(&self, p: V2) -> (r: Option<i64>)
        ensures
            r == s_body_potential(*self, p),
        decreases *self,
    {
        match self {
            Body::Point(s) => s.potential(p),
            Body::Dipole(s) => s.potential(p),
            Body::Circle(s) => s.potential(p),
            Body::Global(s) => s.potential(p),
            Body::Line(s) => s.potential(p),
            Body::Composite(v) => {
                let mut i: usize = v.len();
                let mut acc: Option<i64> = Some(0);
                while i > 0
                    invariant
                        i <= v@.len(),
                        acc == s_potentials_sum(v@.skip(i as int), p),
                        *self == Body::Composite(*v),
                    decreases i,
                {
                    i = i - 1;
                    let sub = &v[i];
                    proof {
                        assert(decreases_to!(*self => self->Composite_0));
                        assert(self->Composite_0 == *v);
                        assert(decreases_to!(*v => v@));
                        assert(decreases_to!(v@ => v@[i as int]));
                    }
                    let po = sub.potential(p);
                    acc = match (po, acc) {
                        (Some(a), Some(b)) => fx_add(a, b),
                        _ => None,
                    };
                    proof {
                        assert(v@.skip(i as int).drop_first() =~= v@.skip(i as int + 1));
                        assert(v@.skip(i as int)[0] == v@[i as int]);
                    }
                }
                proof {
                    assert(v@.skip(0) =~= v@);
                }
                acc
            },
        }
    }

    /// One kinematic step under the ambient field `e`.
    pub fn update(self, e: V2, dt: i64) -> (r: Body)
        ensures
            s_updated(self, e, dt, r),
        decreases self,
    {
        match self {
            Body::Point(s) => Body::Point(s.update(e, dt)),
            Body::Dipole(s) => Body::Dipole(s.update(e, dt)),
            Body::Circle(s) => Body::Circle(s.update(e, dt)),
            Body::Global(s) => Body::Global(s.update(e, dt)),
            Body::Line(s) => Body::Line(s.update(e, dt)),
            Body::Composite(v) => {
                let ghost s0 = Body::Composite(v);
                let ghost gv = v;
                let ghost v0 = v@;
                let mut rest = v;
                let mut out: Vec<Body> = Vec::new();
                while rest.len() > 0
                    invariant
                        rest@ == v0.skip(out@.len() as int),
                        out@.len() <= v0.len(),
                        forall|i: int|
                            0 <= i < out@.len() ==> s_updated(v0[i], e, dt, #[trigger] out@[i]),
                        s0 == Body::Composite(gv),
                        gv@ == v0,
                        self == s0,
                    decreases rest.len(),
                {
                    let ghost k = out@.len() as int;
                    let m = rest.remove(0);
                    proof {
                        assert(m == v0[k]);
                        assert(rest@ =~= v0.skip(k + 1));
                        assert(decreases_to!(s0 => s0->Composite_0));
                        assert(s0->Composite_0 == gv);
                        assert(decreases_to!(gv => gv@));
                        assert(decreases_to!(gv@ => gv@[k]));
                    }
                    let u = m.update(e, dt);
                    out.push(u);
                }
                Body::Composite(out)
            },
        }
    }
}

// ------------------------------------------------------------------
// laws
// ------------------------------------------------------------------

/// The zero vector and the zero scalar are units of the lifted sums.
pub proof fn lemma_sum_unit(f: Option<V2>, v: Option<i64>)
    ensures
        ov_add(f, Some(V2 { x: 0, y: 0 })) == f,
        o_add(v, Some(0i64)) == v,
{
}

/// Superposition: a composite's field and potential are the sums of its
/// members' own evaluations, member by member; the empty composite
/// contributes nothing.
pub proof fn lemma_superposition(v: Vec<Body>, p: V2)
    ensures
        s_body_field(Body::Composite(v), p) == s_fields_sum(v@, p),
        s_body_potential(Body::Composite(v), p) == s_potentials_sum(v@, p),
        v@.len() == 0 ==> s_body_field(Body::Composite(v), p) == Some(V2 { x: 0, y: 0 }),
        v@.len() == 0 ==> s_body_potential(Body::Composite(v), p) == Some(0i64),
{
}

/// The superposition of two sources answers exactly the lifted sum of
/// their individual answers.
#[verifier::rlimit(100)]
pub proof fn lemma_superposition_pair(a: Body, b: Body, v: Vec<Body>, p: V2)
    requires
        v@ == seq![a, b],
    ensures
        s_body_field(Body::Composite(v), p) == ov_add(s_body_field(a, p), s_body_field(b, p)),
        s_body_potential(Body::Composite(v), p) == o_add(
            s_body_potential(a, p),
            s_body_potential(b, p),
        ),
{
    reveal_with_fuel(s_fields_sum, 3);
    reveal_with_fuel(s_potentials_sum, 3);
    assert(v@[0] == a);
    assert(v@.drop_first() =~= seq![b]);
    assert(seq![b][0] == b);
    assert(seq![b].drop_first() =~= Seq::<Body>::empty());
    lemma_sum_unit(s_body_field(b, p), s_body_potential(b, p));
    assert(s_fields_sum(Seq::<Body>::empty(), p) == Some(V2 { x: 0, y: 0 }));
    assert(s_fields_sum(seq![b], p) == ov_add(
        s_body_field(b, p),
        s_fields_sum(Seq::<Body>::empty(), p),
    ));
    assert(s_fields_sum(v@, p) == ov_add(s_body_field(a, p), s_fields_sum(seq![b], p)));
    assert(s_potentials_sum(Seq::<Body>::empty(), p) == Some(0i64));
    assert(s_potentials_sum(seq![b], p) == o_add(
        s_body_potential(b, p),
        s_potentials_sum(Seq::<Body>::empty(), p),
    ));
    assert(s_potentials_sum(v@, p) == o_add(s_body_potential(a, p), s_potentials_sum(seq![b], p)));
}

/// The point-charge formulas are singular at the charge itself: sampled
/// exactly there, both the field and the potential are undefined, and a
/// trace meeting that sample ends rather than crashing.
pub proof fn lemma_point_singular(charge: i64, pos: V2)
    ensures
        s_point_field(charge, pos, pos) == None::<V2>,
        s_point_potential(charge, pos, pos) == None::<i64>,
{
    let z = V2 { x: 0, y: 0 };
    assert(s_vsub(pos, pos) == Some(z));
    vstd::arithmetic::mul::lemma_mul_basics(0);
    vstd::arithmetic::div_mod::lemma_div_pos_is_pos(0, 65536);
    vstd::arithmetic::div_mod::lemma_div_nonincreasing(0, 65536);
    assert(s_sq_sum(z) == 0);
    assert(crate::vec2::s_vlen_sq(z) == Some(0i64));
    assert(crate::fx::sqrt_n(0) == 0);
}

/// Continuity of the regularized circle charge across its radius: where
/// the squared distance equals the squared radius, the interior and
/// exterior branches of both the field and the potential give the same
/// value.
pub proof fn lemma_circle_continuity(charge: i64, r: Option<V2>, r2: i64, r02: i64)
    requires
        r2 == r02,
        r02 >= 1,
        2 * r02 <= 0x7fff_ffff_ffff_ffff,
    ensures
        s_circle_field_outside(charge, r, r2) == s_circle_field_inside(charge, r, r02),
        s_circle_pot_outside(charge, r2, r02) == s_circle_pot_inside(charge, r2, r02),
{
    crate::fx::lemma_ln_defined(r02);
    assert(o_sub(o_ln(Some(r02)), o_ln(Some(r2))) == Some(0i64));
    assert(o_half(o_sub(Some(0i64), Some(ONE))) == Some((-32768) as i64));
    let d2 = 2 * r02;
    assert(tdiv(r02 * 65536, d2 as int) == 32768) by {
        crate::fx::lemma_tdiv_sign_mag(r02 * 65536, d2 as int);
        assert(d2 * 32768 == r02 * 65536);
        assert((d2 * 32768) / (d2 as int) == 32768) by {
            vstd::arithmetic::div_mod::lemma_div_multiples_vanish(32768, d2 as int);
        }
    }
    assert(o_div(Some(r2), o_dbl(Some(r02))) == Some(32768i64));
}

/// The regularized circle charge stays finite at its own position: the
/// field there is the zero vector and the potential zero.
pub proof fn lemma_circle_center(charge: i64, radius: i64, pos: V2)
    requires
        s_mul(radius, radius) matches Some(r02) && 1 <= r02 && 2 * r02
            <= 0x7fff_ffff_ffff_ffff,
    ensures
        s_circle_field(charge, radius, pos, pos) == Some(V2 { x: 0, y: 0 }),
        s_circle_potential(charge, radius, pos, pos) == Some(0i64),
{
    let z = V2 { x: 0, y: 0 };
    assert(s_vsub(pos, pos) == Some(z));
    vstd::arithmetic::mul::lemma_mul_basics(charge as int);
    vstd::arithmetic::mul::lemma_mul_basics(0);
    vstd::arithmetic::div_mod::lemma_div_pos_is_pos(0, 65536);
    vstd::arithmetic::div_mod::lemma_div_nonincreasing(0, 65536);
    assert(s_sq_sum(z) == 0);
    assert(crate::vec2::s_vlen_sq(z) == Some(0i64));
    let r02 = s_mul(radius, radius)->0;
    assert(s_vscale(z, charge) == Some(z));
    assert(crate::fx::s_div(0i64, r02) == Some(0i64));
    assert(s_vdivs(z, r02) == Some(z));
    let d2 = (2 * r02) as i64;
    assert(crate::fx::s_div(0i64, d2) == Some(0i64));
    assert(s_circle_pot_inside(charge, 0, r02) == Some(0i64));
}

// ------------------------------------------------------------------
// the driver tick
// ------------------------------------------------------------------

/// The superposed fields at `p` of the members from `j` on, skipping the
/// member at `skip`.
pub open spec fn s_fields_except(ms: Seq<Body>, skip: int, j: int, p: V2) -> Option<V2>
    decreases ms.len() - j,
{
    if j < 0 || j >= ms.len() {
        Some(V2 { x: 0, y: 0 })
    } else if j == skip {
        s_fields_except(ms, skip, j + 1, p)
    } else {
        ov_add(s_body_field(ms[j], p), s_fields_except(ms, skip, j + 1, p))
    }
}

/// The ambient field handed to member `i`: every other member's field,
/// superposed at `i`'s position; `None` where the position or a field is
/// undefined.
pub open spec fn s_ambient(ms: Seq<Body>, i: int) -> Option<V2> {
    match s_body_pos(ms[i]) {
        Some(p) => s_fields_except(ms, i, 0, p),
        None => None,
    }
}

/// Relates a scene to its value after one driver tick: each member
/// steps under the ambient field of all the others, read from the
/// unmoved snapshot; one whose ambient field is undefined stays put.
pub open spec fn s_simulated(ms: Seq<Body>, dt: i64, rs: Seq<Body>) -> bool {
    rs.len() == ms.len() && (forall|i: int|
        0 <= i < ms.len() ==> match s_ambient(ms, i) {
            Some(e) => s_updated(ms[i], e, dt, #[trigger] rs[i]),
            None => rs[i] == ms[i],
        })
}

/// One driver tick: for each member, the fields of all the other
/// members are summed at its position, and the member steps under that
/// ambient field. All ambient fields are computed from the snapshot
/// before any member moves.
pub fn simulate(bodies: Vec<Body>, dt: i64) -> (r: Vec<Body>)
    ensures
        s_simulated(bodies@, dt, r@),
{
    let n = bodies.len();
    let mut ambients: Vec<Option<V2>> = Vec::new();
    let mut i: usize = 0;
    while i < n
        invariant
            i <= n,
            n == bodies@.len(),
            ambients@.len() == i as int,
            forall|k: int| 0 <= k < i as int ==> ambients@[k] == s_ambient(bodies@, k),
        decreases n - i,
    {
        let bi = &bodies[i];
        let po = bi.pos();
        let amb: Option<V2> = match po {
            Some(p) => {
                let mut j: usize = n;
                let mut acc: Option<V2> = Some(V2 { x: 0, y: 0 });
                while j > 0
                    invariant
                        j <= n,
                        n == bodies@.len(),
                        i < n,
                        acc == s_fields_except(bodies@, i as int, j as int, p),
                    decreases j,
                {
                    j = j - 1;
                    if j != i {
                        let bj = &bodies[j];
                        let f = bj.e_field(p);
                        acc = match (f, acc) {
                            (Some(a), Some(b)) => v_add(a, b),
                            _ => None,
                        };
                    }
                }
                acc
            },
            None => None,
        };
        ambients.push(amb);
        i = i + 1;
    }
    let mut rest = bodies;
    let ghost ms = rest@;
    let mut out: Vec<Body> = Vec::new();
    while rest.len() > 0
        invariant
            rest@ == ms.skip(out@.len() as int),
            out@.len() + rest@.len() == ms.len(),
            ambients@.len() == ms.len(),
            forall|t: int| 0 <= t < ms.len() ==> ambients@[t] == s_ambient(ms, t),
            forall|t: int|
                0 <= t < out@.len() ==> (match s_ambient(ms, t) {
                    Some(e) => s_updated(ms[t], e, dt, #[trigger] out@[t]),
                    None => out@[t] == ms[t],
                }),
        decreases rest.len(),
    {
        let ghost k = out@.len() as int;
        let idx = out.len();
        let m = rest.remove(0);
        proof {
            assert(m == ms[k]);
            assert(rest@ =~= ms.skip(k + 1));
        }
        let a = ambients[idx];
        let u = match a {
            Some(e) => m.update(e, dt),
            None => m,
        };
        out.push(u);
    }
    out
}

} // verus!
