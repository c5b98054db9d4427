use conical_inlet::equations::{calc_deflection_angle, calc_downstream_mach, calc_pressure_ratio};
use conical_inlet::error::FlowError;
use conical_inlet::fixed::Fx;

fn fx(v: f64) -> Fx {
    Fx::from_raw((v * 4294967296.0).round() as i64)
}

fn to_f64(v: Fx) -> f64 {
    v.raw as f64 / 4294967296.0
}

fn pressure_ratio_ref(k2: f64, g: f64) -> f64 {
    ((g + 1.0) * k2 / ((g - 1.0) * k2 + 2.0)).powf(g / (g - 1.0))
        * ((g + 1.0) / (2.0 * g * k2 - g + 1.0)).powf(1.0 / (g - 1.0))
}

fn downstream_mach_ref(k2: f64, m: f64, g: f64) -> f64 {
    let num = (g + 1.0).powi(2) * m * m * k2 - 4.0 * (k2 - 1.0) * (g * k2 + 1.0);
    let den = (2.0 * g * k2 - (g - 1.0)) * ((g - 1.0) * k2 + 2.0);
    (num / den).sqrt()
}

#[test]
fn pressure_ratio_is_one_at_unit_shock_strength() {
    let r = calc_pressure_ratio(fx(1.0), fx(1.4)).unwrap();
    assert!((to_f64(r) - 1.0).abs() < 1e-5);
}

#[test]
fn pressure_ratio_matches_reference_formula() {
    let r = calc_pressure_ratio(fx(2.0), fx(1.4)).unwrap();
    assert!((to_f64(r) - pressure_ratio_ref(2.0, 1.4)).abs() < 1e-5);
}

#[test]
fn pressure_ratio_is_strictly_decreasing_in_shock_strength() {
    let samples = [1.05, 1.2, 1.5, 2.0, 2.5, 3.0, 3.5, 4.0, 4.5, 5.0];
    let mut prev = calc_pressure_ratio(fx(samples[0]), fx(1.4)).unwrap().raw;
    for k2 in samples.iter().skip(1) {
        let cur = calc_pressure_ratio(fx(*k2), fx(1.4)).unwrap().raw;
        assert!(cur < prev, "not decreasing at k^2 = {}", k2);
        prev = cur;
    }
}

#[test]
fn pressure_ratio_decreasing_for_other_heat_ratios() {
    for g in [1.2, 1.3, 1.67] {
        let samples = [1.1, 1.8, 2.6, 3.4, 4.2, 5.0];
        let mut prev = calc_pressure_ratio(fx(samples[0]), fx(g)).unwrap().raw;
        for k2 in samples.iter().skip(1) {
            let cur = calc_pressure_ratio(fx(*k2), fx(g)).unwrap().raw;
            assert!(cur < prev);
            prev = cur;
        }
    }
}

#[test]
fn pressure_ratio_needs_gamma_above_one() {
    let r = calc_pressure_ratio(fx(2.0), fx(1.0));
    assert!(matches!(r, Err(FlowError::MathError)));
}

#[test]
fn downstream_mach_matches_reference_formula() {
    let r = calc_downstream_mach(fx(2.0), fx(3.0), fx(1.4)).unwrap();
    assert!((to_f64(r) - downstream_mach_ref(2.0, 3.0, 1.4)).abs() < 1e-5);
}

#[test]
fn vanishing_shock_leaves_the_mach_number_unchanged() {
    let r = calc_downstream_mach(fx(1.0), fx(2.0), fx(1.4)).unwrap();
    assert!((to_f64(r) - 2.0).abs() < 1e-5);
}

#[test]
fn downstream_mach_rejects_a_negative_closed_form() {
    // at k^2 = 2 a slow upstream flow has no physical downstream state
    let r = calc_downstream_mach(fx(2.0), fx(0.5), fx(1.4));
    assert!(matches!(r, Err(FlowError::DomainError)));
}

#[test]
fn deflection_angle_matches_reference_formula() {
    let m = 3.0f64;
    let b = 0.7853981633974483f64;
    let g = 1.4f64;
    let expected = (2.0 / b.tan() * (m * m * b.sin() * b.sin() - 1.0)
        / (m * m * (g + (2.0 * b).cos()) + 2.0))
        .atan();
    let r = calc_deflection_angle(fx(m), fx(b), fx(g)).unwrap();
    assert!((to_f64(r) - expected).abs() < 1e-5);
}

#[test]
fn deflection_angle_rejects_degenerate_shock_angle() {
    let r = calc_deflection_angle(fx(3.0), Fx::zero(), fx(1.4));
    assert!(matches!(r, Err(FlowError::MathError)));
}
