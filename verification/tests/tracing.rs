//! The two tracers and the subdivider, on the scenarios the library is
//! meant for.

use fieldtrace::vec2::V2;
use fieldtrace::body::{Body, PointCharge, GlobalField};
use fieldtrace::trace::{isopotential_points, field_line_points};
use fieldtrace::subdiv::{subdivide_isopotential, SpacingMetric};

fn fx(v: f64) -> i64 {
    (v * 65536.0).round() as i64
}

fn fl(v: i64) -> f64 {
    v as f64 / 65536.0
}

fn pt(x: f64, y: f64) -> V2 {
    V2 { x: fx(x), y: fx(y) }
}

fn dist(a: V2, b: V2) -> f64 {
    let dx: f64 = fl(a.x) - fl(b.x);
    let dy: f64 = fl(a.y) - fl(b.y);
    (dx * dx + dy * dy).sqrt()
}

fn single_positive_charge() -> Body {
    Body::Point(PointCharge {
        charge: fx(50.0),
        mass: fx(1.0),
        pos: pt(0.0, 0.0),
        vel: pt(0.0, 0.0),
    })
}

/// One point charge of magnitude +50 at the origin: the isopotential
/// seeded at (50, 0) with tight tolerances closes back near its seed.
#[test]
fn isopotential_of_a_point_charge_closes() {
    let b = single_positive_charge();
    let seed = pt(50.0, 0.0);
    let (points, closed) = isopotential_points(&b, seed, fx(5e-3), fx(5.0), fx(1e-3), 1000);
    assert!(closed, "the contour must close within the budget");
    assert!(points.len() >= 3 && points.len() <= 1000);
    let last = points[points.len() - 1];
    assert!(dist(last, seed) <= 2.5, "closure distance {}", dist(last, seed));
}

/// The traced loop around a charge at distance d has length close to
/// the circle circumference 2 pi d, and all its points stay at
/// distance d from the charge.
#[test]
fn isopotential_loop_length_approximates_the_circle() {
    let b = single_positive_charge();
    let seed = pt(50.0, 0.0);
    let (points, closed) = isopotential_points(&b, seed, fx(5e-3), fx(5.0), fx(1e-3), 1000);
    assert!(closed);
    let mut len: f64 = dist(seed, points[0]);
    for i in 1..points.len() {
        len += dist(points[i - 1], points[i]);
        let r: f64 = dist(points[i], pt(0.0, 0.0));
        assert!((r - 50.0).abs() < 0.5, "radius drift {r}");
    }
    let want: f64 = 2.0 * std::f64::consts::PI * 50.0;
    assert!((len - want).abs() / want < 0.05, "length {len} vs {want}");
}

/// The integrator respects its step bounds: consecutive accepted points
/// are never farther apart than the maximum step length (plus the
/// truncation slack of the weighted increment).
#[test]
fn accepted_steps_stay_within_the_step_bounds() {
    let b = single_positive_charge();
    let seed = pt(50.0, 0.0);
    let (points, _) = isopotential_points(&b, seed, fx(5e-3), fx(5.0), fx(1e-3), 1000);
    let mut prev = seed;
    for &p in points.iter() {
        assert!(dist(prev, p) <= 5.0 + 1e-2, "step of {}", dist(prev, p));
        prev = p;
    }
}

fn two_opposite_charges() -> Body {
    Body::Composite(vec![
        Body::Point(PointCharge {
            charge: fx(50.0),
            mass: fx(1.0),
            pos: pt(0.0, 50.0),
            vel: pt(0.0, 0.0),
        }),
        Body::Point(PointCharge {
            charge: fx(-50.0),
            mass: fx(1.0),
            pos: pt(0.0, -50.0),
            vel: pt(0.0, 0.0),
        }),
    ])
}

/// Two point charges +50 at (0, 50) and -50 at (0, -50): the field line
/// seeded near the positive charge runs to the negative one and holds
/// the seed at the junction of its two halves.
#[test]
fn field_line_between_two_charges() {
    let b = two_opposite_charges();
    let seed = pt(0.0, 49.0);
    let points = field_line_points(&b, seed, fx(5e-3), fx(5.0), fx(1e-3), 1000);
    assert!(points.len() >= 3 && points.len() <= 2001);
    let k = points.iter().position(|&p| p == seed).expect("the seed sits on the line");
    // the low-potential end lies near the negative charge
    assert!(dist(points[0], pt(0.0, -50.0)) < 1.5, "end at distance {}", dist(points[0], pt(0.0, -50.0)));
    // the arc hugs the axis between the charges and is monotonic in y
    for w in points.windows(2) {
        assert!(fl(w[0].x).abs() < 1.0);
        assert!(fl(w[0].y) <= fl(w[1].y) + 1e-6);
    }
    // direction is continuous in sign across the junction
    if k > 0 && k + 1 < points.len() {
        let before = points[k - 1];
        let after = points[k + 1];
        let ax: f64 = fl(before.x) - fl(seed.x);
        let ay: f64 = fl(before.y) - fl(seed.y);
        let bx: f64 = fl(after.x) - fl(seed.x);
        let by: f64 = fl(after.y) - fl(seed.y);
        assert!(ax * bx + ay * by < 0.0, "the halves leave the seed in opposite senses");
    }
}

/// Subdividing a straight two-point contour by arclength emits evenly
/// spaced seeds.
#[test]
fn subdivide_by_arclength_is_even() {
    let b = Body::Global(GlobalField { field: pt(0.0, 1.0) });
    let contour = vec![pt(0.0, 0.0), pt(10.0, 0.0)];
    let seeds = subdivide_isopotential(&b, &contour, fx(3.0), SpacingMetric::Arclength);
    assert_eq!(seeds.len(), 3);
    for (i, s) in seeds.iter().enumerate() {
        let want: f64 = 3.0 * (i as f64 + 1.0);
        assert!((fl(s.x) - want).abs() < 1e-2, "seed {i} at {}", fl(s.x));
        assert!(fl(s.y).abs() < 1e-3);
    }
}

/// Subdividing by flux weights the spacing with the field strength: in
/// a uniform field of magnitude two, seeds come twice as dense.
#[test]
fn subdivide_by_flux_weights_with_field_strength() {
    let b = Body::Global(GlobalField { field: pt(0.0, 2.0) });
    let contour = vec![pt(0.0, 0.0), pt(10.0, 0.0)];
    let seeds = subdivide_isopotential(&b, &contour, fx(4.0), SpacingMetric::Flux);
    assert_eq!(seeds.len(), 5);
    for (i, s) in seeds.iter().enumerate() {
        let want: f64 = 2.0 * (i as f64 + 1.0);
        assert!((fl(s.x) - want).abs() < 1e-2, "seed {i} at {}", fl(s.x));
    }
}

/// A trace seeded exactly at a singular point ends at once, empty and
/// open, instead of crashing.
#[test]
fn trace_from_a_singular_seed_is_empty() {
    let b = single_positive_charge();
    let seed = pt(0.0, 0.0);
    let (points, closed) = isopotential_points(&b, seed, fx(5e-3), fx(5.0), fx(1e-3), 100);
    assert!(points.is_empty());
    assert!(!closed);
    let line = field_line_points(&b, seed, fx(5e-3), fx(5.0), fx(1e-3), 100);
    assert_eq!(line.len(), 1);
    assert_eq!(line[0], seed);
}

/// A contour of fewer than two points yields no seeds.
#[test]
fn subdivide_of_a_short_contour_is_empty() {
    let b = Body::Global(GlobalField { field: pt(0.0, 1.0) });
    assert!(subdivide_isopotential(&b, &vec![], fx(3.0), SpacingMetric::Arclength).is_empty());
    assert!(
        subdivide_isopotential(&b, &vec![pt(1.0, 1.0)], fx(3.0), SpacingMetric::Arclength)
            .is_empty()
    );
}

/// Seeds from a subdivided isopotential launch field lines: the whole
/// pipeline of the tool, on the two-charge scene.
#[test]
fn seeds_from_a_contour_launch_field_lines() {
    let b = two_opposite_charges();
    let (contour, _) = isopotential_points(&b, pt(0.0, 40.0), fx(5e-3), fx(5.0), fx(1e-3), 400);
    assert!(contour.len() >= 2);
    let seeds = subdivide_isopotential(&b, &contour, fx(10.0), SpacingMetric::Arclength);
    assert!(!seeds.is_empty());
    for s in seeds.iter().take(3) {
        let line = field_line_points(&b, *s, fx(5e-3), fx(5.0), fx(1e-3), 500);
        assert!(!line.is_empty());
    }
}
