use conical_inlet::error::FlowError;
use conical_inlet::fixed::{q_add, q_div, q_mul, q_sqrt, Fx, RAW_MAX, SCALE};

fn fx(v: f64) -> Fx {
    Fx::from_raw((v * 4294967296.0).round() as i64)
}

#[test]
fn mul_exact_on_representable_values() {
    let r = q_mul(fx(2.5), fx(4.0)).unwrap();
    assert_eq!(r.raw, 10 * SCALE);
}

#[test]
fn mul_reports_overflow() {
    let big = Fx::from_raw(RAW_MAX);
    assert!(matches!(q_mul(big, big), Err(FlowError::MathError)));
}

#[test]
fn div_exact_on_representable_values() {
    let r = q_div(fx(1.0), fx(4.0)).unwrap();
    assert_eq!(r.raw, SCALE / 4);
    let neg = q_div(fx(-1.0), fx(4.0)).unwrap();
    assert_eq!(neg.raw, -(SCALE / 4));
}

#[test]
fn div_by_zero_is_math_error() {
    assert!(matches!(q_div(fx(1.0), Fx::zero()), Err(FlowError::MathError)));
}

#[test]
fn add_reports_overflow() {
    let big = Fx::from_raw(RAW_MAX);
    assert!(matches!(q_add(big, big), Err(FlowError::MathError)));
}

#[test]
fn sqrt_exact_on_perfect_square() {
    let r = q_sqrt(fx(4.0)).unwrap();
    assert_eq!(r.raw, 2 * SCALE);
}

#[test]
fn sqrt_of_negative_is_domain_error() {
    assert!(matches!(q_sqrt(fx(-1.0)), Err(FlowError::DomainError)));
}

#[test]
fn sqrt_of_two_matches_reference() {
    let r = q_sqrt(fx(2.0)).unwrap();
    let expected = (2.0f64.sqrt() * 4294967296.0) as i64;
    assert!((r.raw - expected).abs() <= 2);
}
