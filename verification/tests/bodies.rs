//! The field sources: gradient consistency, superposition, regularized
//! continuity, constructors and the kinematic step.

use fieldtrace::vec2::V2;
use fieldtrace::body::{Body, PointCharge, CircleCharge, GlobalField, LineCharge, Dipole, simulate};

fn fx(v: f64) -> i64 {
    (v * 65536.0).round() as i64
}

fn fl(v: i64) -> f64 {
    v as f64 / 65536.0
}

fn pt(x: f64, y: f64) -> V2 {
    V2 { x: fx(x), y: fx(y) }
}

fn potential_of(b: &Body, x: f64, y: f64) -> f64 {
    fl(b.potential(pt(x, y)).unwrap())
}

/// The finite-difference gradient of the potential must match the
/// negated closed-form field within a tolerance proportional to the
/// sampling step.
fn check_gradient(b: &Body, x: f64, y: f64) {
    let h: f64 = 0.25;
    let gx: f64 = (potential_of(b, x + h, y) - potential_of(b, x - h, y)) / (2.0 * h);
    let gy: f64 = (potential_of(b, x, y + h) - potential_of(b, x, y - h)) / (2.0 * h);
    let e = b.e_field(pt(x, y)).unwrap();
    let (ex, ey) = (fl(e.x), fl(e.y));
    let scale: f64 = 1.0 + ex.abs().max(ey.abs());
    assert!(
        ((-gx) - ex).abs() / scale < 0.02 && ((-gy) - ey).abs() / scale < 0.02,
        "gradient ({gx}, {gy}) vs field ({ex}, {ey}) at ({x}, {y})"
    );
}

#[test]
fn point_charge_gradient_matches_field() {
    let b = Body::Point(PointCharge { charge: fx(50.0), mass: fx(1.0), pos: pt(0.0, 0.0), vel: pt(0.0, 0.0) });
    check_gradient(&b, 20.0, 0.0);
    check_gradient(&b, -7.0, 13.0);
    check_gradient(&b, 3.0, -4.0);
}

#[test]
fn circle_charge_gradient_matches_field_outside_and_inside() {
    let b = Body::Circle(CircleCharge { charge: fx(50.0), mass: fx(1.0), radius: fx(20.0), pos: pt(0.0, 0.0), vel: pt(0.0, 0.0) });
    check_gradient(&b, 30.0, 0.0);
    check_gradient(&b, 0.0, -35.0);
    check_gradient(&b, 5.0, 0.0);
    check_gradient(&b, -3.0, 8.0);
}

#[test]
fn global_field_gradient_matches_field() {
    let b = Body::Global(GlobalField { field: pt(3.0, -2.0) });
    check_gradient(&b, 10.0, 20.0);
    check_gradient(&b, -4.0, 6.0);
}

#[test]
fn line_charge_gradient_matches_field() {
    let lc = LineCharge::new(pt(-100.0, 0.0), pt(100.0, 0.0), fx(-100.0)).unwrap();
    let b = Body::Line(lc);
    check_gradient(&b, 30.0, 40.0);
    check_gradient(&b, -50.0, -25.0);
    check_gradient(&b, 120.0, 10.0);
}

#[test]
fn dipole_gradient_matches_field() {
    let d = Dipole::new(fx(50.0), fx(1.0), pt(1.0, 0.0), pt(0.0, 0.0), pt(0.0, 0.0)).unwrap();
    let b = Body::Dipole(d);
    check_gradient(&b, 10.0, 5.0);
    check_gradient(&b, -6.0, -9.0);
}

#[test]
fn superposition_is_the_member_sum() {
    let members = vec![
        Body::Point(PointCharge { charge: fx(50.0), mass: fx(1.0), pos: pt(10.0, 0.0), vel: pt(0.0, 0.0) }),
        Body::Circle(CircleCharge { charge: fx(-30.0), mass: fx(1.0), radius: fx(5.0), pos: pt(-10.0, 5.0), vel: pt(0.0, 0.0) }),
        Body::Global(GlobalField { field: pt(1.0, 2.0) }),
    ];
    let parts: Vec<(V2, i64)> = members
        .iter()
        .map(|m| (m.e_field(pt(3.0, 4.0)).unwrap(), m.potential(pt(3.0, 4.0)).unwrap()))
        .collect();
    let comp = Body::Composite(members);
    let e = comp.e_field(pt(3.0, 4.0)).unwrap();
    let v = comp.potential(pt(3.0, 4.0)).unwrap();
    let ex: i64 = parts.iter().map(|p| p.0.x).sum();
    let ey: i64 = parts.iter().map(|p| p.0.y).sum();
    let vs: i64 = parts.iter().map(|p| p.1).sum();
    assert_eq!(e, V2 { x: ex, y: ey });
    assert_eq!(v, vs);
}

#[test]
fn composite_position_is_the_mean() {
    let members = vec![
        Body::Point(PointCharge { charge: fx(1.0), mass: fx(1.0), pos: pt(10.0, 0.0), vel: pt(0.0, 0.0) }),
        Body::Point(PointCharge { charge: fx(1.0), mass: fx(1.0), pos: pt(-4.0, 6.0), vel: pt(0.0, 0.0) }),
    ];
    let comp = Body::Composite(members);
    assert_eq!(comp.pos(), Some(pt(3.0, 3.0)));
    assert_eq!(Body::Composite(vec![]).pos(), None);
}

#[test]
fn circle_charge_is_continuous_across_the_radius() {
    let b = Body::Circle(CircleCharge { charge: fx(50.0), mass: fx(1.0), radius: fx(20.0), pos: pt(0.0, 0.0), vel: pt(0.0, 0.0) });
    let eps: f64 = 1.0 / 4096.0;
    let v_out: f64 = potential_of(&b, 20.0 + eps, 0.0);
    let v_in: f64 = potential_of(&b, 20.0 - eps, 0.0);
    assert!((v_out - v_in).abs() < 0.01, "potential jump {v_out} vs {v_in}");
    let e_out = b.e_field(pt(20.0 + eps, 0.0)).unwrap();
    let e_in = b.e_field(pt(20.0 - eps, 0.0)).unwrap();
    assert!((fl(e_out.x) - fl(e_in.x)).abs() < 0.01);
    assert!((fl(e_out.y) - fl(e_in.y)).abs() < 0.01);
    assert!((v_out - (-25.0)).abs() < 0.05, "boundary potential {v_out}");
}

#[test]
fn circle_charge_is_finite_at_its_own_position() {
    let b = Body::Circle(CircleCharge { charge: fx(50.0), mass: fx(1.0), radius: fx(20.0), pos: pt(2.0, 3.0), vel: pt(0.0, 0.0) });
    assert_eq!(b.e_field(pt(2.0, 3.0)), Some(V2 { x: 0, y: 0 }));
    assert_eq!(b.potential(pt(2.0, 3.0)), Some(0));
}

#[test]
fn point_charge_is_singular_at_its_own_position() {
    let b = Body::Point(PointCharge { charge: fx(50.0), mass: fx(1.0), pos: pt(1.0, 2.0), vel: pt(0.0, 0.0) });
    assert_eq!(b.e_field(pt(1.0, 2.0)), None);
    assert_eq!(b.potential(pt(1.0, 2.0)), None);
}

#[test]
fn degenerate_constructors_are_rejected() {
    assert!(LineCharge::new(pt(1.0, 1.0), pt(1.0, 1.0), fx(5.0)).is_none());
    assert!(Dipole::new(fx(1.0), fx(1.0), pt(0.0, 0.0), pt(0.0, 0.0), pt(0.0, 0.0)).is_none());
}

#[test]
fn line_charge_derives_center_and_density() {
    let lc = LineCharge::new(pt(-100.0, 0.0), pt(100.0, 0.0), fx(-100.0)).unwrap();
    assert_eq!(lc.pos(), pt(0.0, 0.0));
    assert!((fl(lc.charge_density) - (-0.5)).abs() < 1e-3);
    assert!((fl(lc.length) - 200.0).abs() < 1e-3);
}

#[test]
fn kinematic_step_follows_the_field() {
    let b = PointCharge { charge: fx(2.0), mass: fx(1.0), pos: pt(0.0, 0.0), vel: pt(1.0, 0.0) };
    let stepped = b.update(pt(0.0, 3.0), fx(0.5));
    // dv = dt*e*q/m = (0, 3)*0.5*2 = (0, 3); pos += (vel + dv/2)*dt = (0.5, 0.75)
    assert!((fl(stepped.pos.x) - 0.5).abs() < 1e-3);
    assert!((fl(stepped.pos.y) - 0.75).abs() < 1e-3);
    assert!((fl(stepped.vel.x) - 1.0).abs() < 1e-3);
    assert!((fl(stepped.vel.y) - 3.0).abs() < 1e-3);
}

#[test]
fn opposite_charges_attract_under_simulate() {
    let scene = vec![
        Body::Point(PointCharge { charge: fx(50.0), mass: fx(1.0), pos: pt(0.0, 0.0), vel: pt(0.0, 0.0) }),
        Body::Point(PointCharge { charge: fx(-50.0), mass: fx(1.0), pos: pt(10.0, 0.0), vel: pt(0.0, 0.0) }),
    ];
    let next = simulate(scene, fx(0.01));
    match (&next[0], &next[1]) {
        (Body::Point(a), Body::Point(b)) => {
            assert!(a.vel.x > 0, "positive charge pulled toward the negative one");
            assert!(b.vel.x < 0, "negative charge pulled toward the positive one");
        },
        _ => panic!("simulate must keep the variants"),
    }
}

#[test]
fn dipole_translates_rigidly() {
    let d = Dipole::new(fx(10.0), fx(2.0), pt(0.0, 1.0), pt(5.0, 5.0), pt(1.0, -2.0)).unwrap();
    let before = d.pos();
    let stepped = d.update(pt(100.0, 100.0), fx(0.5));
    let after = stepped.pos();
    assert!((fl(after.x) - (fl(before.x) + 0.5)).abs() < 1e-3);
    assert!((fl(after.y) - (fl(before.y) - 1.0)).abs() < 1e-3);
}
