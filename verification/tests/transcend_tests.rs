use conical_inlet::error::FlowError;
use conical_inlet::fixed::{Fx, SCALE};
use conical_inlet::transcend::{
    q_asin, q_atan, q_cos, q_exp, q_ln, q_pow, q_sin, HALF_PI_RAW, LN2_RAW, PI_RAW,
};

fn fx(v: f64) -> Fx {
    Fx::from_raw((v * 4294967296.0).round() as i64)
}

fn close(a: i64, b: f64, tol_raw: i64) -> bool {
    let expected = (b * 4294967296.0).round() as i64;
    (a - expected).abs() <= tol_raw
}

#[test]
fn sin_at_zero_and_right_angle() {
    assert_eq!(q_sin(Fx::zero()).raw, 0);
    assert!(close(q_sin(Fx::from_raw(HALF_PI_RAW)).raw, 1.0, 64));
}

#[test]
fn cos_at_zero_and_pi() {
    assert_eq!(q_cos(Fx::zero()).raw, SCALE);
    assert!(close(q_cos(Fx::from_raw(PI_RAW)).raw, -1.0, 64));
}

#[test]
fn sin_cos_match_reference_inside_quadrant() {
    let x = 0.7f64;
    assert!(close(q_sin(fx(x)).raw, x.sin(), 64));
    assert!(close(q_cos(fx(x)).raw, x.cos(), 64));
}

#[test]
fn atan_of_one_is_quarter_pi() {
    assert!(close(q_atan(fx(1.0)).raw, std::f64::consts::FRAC_PI_4, 128));
}

#[test]
fn atan_is_odd_and_handles_large_arguments() {
    assert!(close(q_atan(fx(-3.5)).raw, (-3.5f64).atan(), 128));
}

#[test]
fn asin_matches_reference() {
    assert!(close(q_asin(fx(0.5)).unwrap().raw, 0.5f64.asin(), 128));
}

#[test]
fn asin_outside_domain_is_domain_error() {
    assert!(matches!(q_asin(fx(1.5)), Err(FlowError::DomainError)));
    assert!(matches!(q_asin(fx(-1.0)), Err(FlowError::DomainError)));
}

#[test]
fn ln_of_two_matches_its_constant() {
    let r = q_ln(fx(2.0)).unwrap();
    assert!((r.raw - LN2_RAW).abs() <= 32);
}

#[test]
fn ln_matches_reference_across_binades() {
    assert!(close(q_ln(fx(0.17)).unwrap().raw, 0.17f64.ln(), 256));
    assert!(close(q_ln(fx(4.25)).unwrap().raw, 4.25f64.ln(), 256));
}

#[test]
fn ln_of_nonpositive_is_domain_error() {
    assert!(matches!(q_ln(Fx::zero()), Err(FlowError::DomainError)));
    assert!(matches!(q_ln(fx(-2.0)), Err(FlowError::DomainError)));
}

#[test]
fn exp_of_zero_is_one() {
    assert_eq!(q_exp(Fx::zero()).unwrap().raw, SCALE);
}

#[test]
fn exp_matches_reference() {
    assert!(close(q_exp(fx(1.0)).unwrap().raw, 1.0f64.exp(), 512));
    assert!(close(q_exp(fx(-2.5)).unwrap().raw, (-2.5f64).exp(), 512));
}

#[test]
fn exp_reports_overflow() {
    assert!(matches!(q_exp(fx(30.0)), Err(FlowError::MathError)));
}

#[test]
fn pow_square_root_matches_reference() {
    assert!(close(q_pow(fx(4.0), fx(0.5)).unwrap().raw, 2.0, 512));
    assert!(close(q_pow(fx(1.4167), fx(3.5)).unwrap().raw, 1.4167f64.powf(3.5), 4096));
}

#[test]
fn pow_of_nonpositive_base_is_domain_error() {
    assert!(matches!(q_pow(fx(-2.0), fx(0.5)), Err(FlowError::DomainError)));
}
