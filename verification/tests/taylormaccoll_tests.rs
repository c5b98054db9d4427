use conical_inlet::error::FlowError;
use conical_inlet::fixed::{Fx, SCALE};
use conical_inlet::taylormaccoll::{
    solve_taylor_maccoll, streamline, taylor_maccoll, VelocityVector,
};

fn fx(v: f64) -> Fx {
    Fx::from_raw((v * 4294967296.0).round() as i64)
}

fn to_f64(v: Fx) -> f64 {
    v.raw as f64 / 4294967296.0
}

fn vel(u: f64, v: f64) -> VelocityVector {
    VelocityVector { radial_component: fx(u), tangential_component: fx(v) }
}

#[test]
fn subsonic_state_is_invalid_mach_number() {
    let r = taylor_maccoll(&vel(0.3, 0.3), fx(1.0), fx(1.4));
    assert!(matches!(r, Err(FlowError::InvalidMachNumber)));
}

#[test]
fn valid_mach_number_is_exact_at_the_boundary() {
    assert!(vel(1.0, 0.0).valid_mach_number());
    assert!(!vel(0.7, 0.7).valid_mach_number());
    assert!(vel(0.8, 0.6).valid_mach_number());
}

#[test]
fn mach_number_of_three_four_five_triangle() {
    let m = vel(0.6, 0.8).get_mach_number().unwrap();
    assert!((m.raw - SCALE).abs() <= 2);
}

#[test]
fn sonic_tangential_component_is_singular() {
    let r = taylor_maccoll(&vel(1.0, -1.0), fx(1.0), fx(1.4));
    assert!(matches!(r, Err(FlowError::InvalidMachNumber)));
}

#[test]
fn derivative_matches_reference_formula() {
    let (u, v, th, g) = (2.0f64, -1.5f64, 0.9f64, 1.4f64);
    let shared = (u + v / th.tan()) / (v * v - 1.0);
    let du = v + ((g - 1.0) / 2.0 * u * v) * shared;
    let dv = -u + (1.0 + (g - 1.0) / 2.0 * v * v) * shared;
    let d = taylor_maccoll(&vel(u, v), fx(th), fx(g)).unwrap();
    assert!((to_f64(d.radial_derivative) - du).abs() < 1e-5);
    assert!((to_f64(d.tangential_derivative) - dv).abs() < 1e-5);
}

#[test]
fn streamline_rate_matches_reference_formula() {
    let r = streamline(&vel(2.0, -1.5), fx(1.0)).unwrap();
    assert!((to_f64(r) - (2.0 / -1.5)).abs() < 1e-6);
}

#[test]
fn streamline_rejects_purely_radial_flow() {
    let r = streamline(&vel(2.0, 0.0), fx(1.0));
    assert!(matches!(r, Err(FlowError::InvalidMachNumber)));
}

#[test]
fn integration_stops_at_tangential_crossing() {
    let initial = vel(2.0, -0.05);
    let res = solve_taylor_maccoll(initial, fx(1.0), fx(0.0), fx(1.0), fx(1.4), 1000).unwrap();
    assert!(res.len() >= 2);
    assert_eq!(res[0].velocity_vector.radial_component, initial.radial_component);
    assert_eq!(res[0].theta, fx(1.0));
    let last = res[res.len() - 1].velocity_vector.tangential_component.raw;
    let prev = res[res.len() - 2].velocity_vector.tangential_component.raw;
    assert!(prev < 0 && last >= 0);
    for w in res.windows(2) {
        assert!(w[1].theta.raw < w[0].theta.raw);
    }
    for s in res.iter().take(res.len() - 1) {
        assert!(s.velocity_vector.tangential_component.raw < 0);
    }
}

#[test]
fn integration_without_crossing_is_nonconvergence() {
    let res = solve_taylor_maccoll(vel(2.0, -0.5), fx(1.0), fx(0.5), fx(1.0), fx(1.4), 1);
    assert!(matches!(res, Err(FlowError::NonConvergenceError)));
}

#[test]
fn integration_rejects_subsonic_initial_state() {
    let res = solve_taylor_maccoll(vel(0.3, 0.3), fx(1.0), fx(0.0), fx(1.0), fx(1.4), 10);
    assert!(matches!(res, Err(FlowError::InvalidMachNumber)));
}

#[test]
fn integration_is_deterministic() {
    let a = solve_taylor_maccoll(vel(2.0, -0.05), fx(1.0), fx(0.0), fx(1.0), fx(1.4), 1000)
        .unwrap();
    let b = solve_taylor_maccoll(vel(2.0, -0.05), fx(1.0), fx(0.0), fx(1.0), fx(1.4), 1000)
        .unwrap();
    assert_eq!(a.len(), b.len());
    for (x, y) in a.iter().zip(b.iter()) {
        assert_eq!(x, y);
    }
}
