//! Two-dimensional electrostatic field sources and curve tracers.
//!
//! The library models point charges, dipoles, regularized circle charges,
//! finite charged segments and uniform background fields, superposes them,
//! and traces equipotential contours and field lines through the resulting
//! field with an adaptive Runge-Kutta integrator.
//!
//! All coordinates, charges and step lengths are fixed-point numbers: an
//! `i64` counts units of `1 / 65536`. Operations that a floating-point
//! implementation would let degenerate into NaN or infinity (division by
//! zero at a singular point, a value outside the representable range)
//! return `None` instead, and a trace that meets such a value stops early
//! and returns the points accumulated so far.

pub mod fx;
pub mod vec2;
pub mod body;
pub mod trace;
pub mod subdiv;
