//! Inverse aerodynamic design of an axisymmetric supersonic conical inlet.
//!
//! Given a target stagnation-pressure-recovery efficiency and a target
//! downstream Mach number, the crate inverts the conical-shock relations with
//! a bisection root finder and integrates the Taylor-Maccoll similarity
//! equations with a fixed-step fourth-order Runge-Kutta scheme, producing the
//! streamline that defines the inlet contour.
//!
//! All scalar quantities are Q32.32 fixed-point numbers ([`fixed::Fx`]), so
//! every arithmetic step has an exact, machine-checked meaning.
//!
//! - [`fixed`]: the checked fixed-point scalar and its arithmetic;
//! - [`transcend`]: sine, cosine, arctangent, arcsine, logarithm,
//!   exponential and power, each pinned to an explicit approximant;
//! - [`numerics`]: the bisection root finder;
//! - [`equations`]: the closed-form oblique/conical shock relations;
//! - [`taylormaccoll`]: the similarity ODE, the streamline equation and the
//!   fixed-step Runge-Kutta integrator with cone-surface detection;
//! - [`design`]: the two nested root solves and the end-to-end inverse
//!   design;
//! - [`polyfit`]: the polynomial record that carries a fitted contour.

pub mod design;
pub mod equations;
pub mod error;
pub mod numerics;
pub mod polyfit;
pub mod taylormaccoll;
pub mod fixed;
pub mod transcend;
