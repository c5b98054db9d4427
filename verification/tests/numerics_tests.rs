use conical_inlet::error::FlowError;
use conical_inlet::fixed::{q_mul, q_sub, Fx};
use conical_inlet::numerics::bisection;

fn fx(v: f64) -> Fx {
    Fx::from_raw((v * 4294967296.0).round() as i64)
}

#[test]
fn bisect_finds_linear_root() {
    let c = fx(0.3);
    let f = |x: Fx| q_sub(x, c);
    let root = bisection(&f, fx(0.0), fx(1.0), None, None).unwrap();
    assert!((root.raw - c.raw).abs() <= 32);
}

#[test]
fn bisect_accepts_reversed_bracket() {
    let c = fx(0.3);
    let f = |x: Fx| q_sub(x, c);
    let root = bisection(&f, fx(1.0), fx(0.0), None, None).unwrap();
    assert!((root.raw - c.raw).abs() <= 32);
}

#[test]
fn bisect_returns_the_same_root_for_either_bracket_order() {
    let c = fx(0.3);
    let f = |x: Fx| q_sub(x, c);
    let a = bisection(&f, fx(0.0), fx(1.0), None, None).unwrap();
    let b = bisection(&f, fx(1.0), fx(0.0), None, None).unwrap();
    assert_eq!(a, b);
}

#[test]
fn bisect_rejects_unbracketed_root() {
    let f = |x: Fx| q_mul(x, x);
    let r = bisection(&f, fx(1.0), fx(2.0), None, None);
    assert!(matches!(r, Err(FlowError::BracketError)));
}

#[test]
fn bisect_exhausts_budget_with_zero_tolerance() {
    let c = fx(0.3);
    let f = |x: Fx| q_sub(x, c);
    let r = bisection(&f, fx(0.0), fx(1.0), Some(Fx::zero()), Some(50));
    assert!(matches!(r, Err(FlowError::NonConvergenceError)));
}

#[test]
fn bisect_propagates_residual_failure() {
    let f = |_x: Fx| -> Result<Fx, FlowError> { Err(FlowError::DomainError) };
    let r = bisection(&f, fx(0.0), fx(1.0), None, None);
    assert!(matches!(r, Err(FlowError::DomainError)));
}
