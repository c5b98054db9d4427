use conical_inlet::design::{design, solve_for_k_squared, solve_for_upstream_mach};
use conical_inlet::equations::{calc_downstream_mach, calc_pressure_ratio};
use conical_inlet::error::FlowError;
use conical_inlet::fixed::Fx;
use conical_inlet::polyfit::Polynomial;

fn fx(v: f64) -> Fx {
    Fx::from_raw((v * 4294967296.0).round() as i64)
}

#[test]
fn shock_strength_solve_meets_the_efficiency_target() {
    let k2 = solve_for_k_squared(fx(0.9), fx(1.4), fx(1.0), fx(5.0), None, None).unwrap();
    let pr = calc_pressure_ratio(k2, fx(1.4)).unwrap();
    assert!((pr.raw - fx(0.9).raw).abs() <= 64);
}

#[test]
fn upstream_mach_solve_meets_the_mach_target() {
    let k2 = solve_for_k_squared(fx(0.9), fx(1.4), fx(1.0), fx(5.0), None, None).unwrap();
    let m = solve_for_upstream_mach(fx(2.0), k2, fx(1.4), fx(2.0), fx(5.0), None, None).unwrap();
    let dm = calc_downstream_mach(k2, m, fx(1.4)).unwrap();
    assert!((dm.raw - fx(2.0).raw).abs() <= 256);
}

#[test]
fn mach_solve_propagates_an_imaginary_downstream_state() {
    // near-zero upstream Mach numbers have no physical downstream state, so
    // a bracket end there fails the residual itself
    let k2 = solve_for_k_squared(fx(0.9), fx(1.4), fx(1.0), fx(5.0), None, None).unwrap();
    let r = solve_for_upstream_mach(fx(2.0), k2, fx(1.4), fx(0.0), fx(5.0), None, None);
    assert!(matches!(r, Err(FlowError::DomainError)));
}

#[test]
fn end_to_end_design_converges_and_traces_the_contour() {
    let res = design(
        fx(1.4),
        fx(0.9),
        fx(2.0),
        fx(1.0),
        fx(5.0),
        fx(2.0),
        fx(5.0),
        None,
        None,
        None,
    )
    .unwrap();
    assert!(res.len() >= 2);
    // the tangential velocity crosses zero at the final pair of samples
    let last = res[res.len() - 1].velocity_vector.tangential_component.raw;
    let prev = res[res.len() - 2].velocity_vector.tangential_component.raw;
    assert!((prev < 0 && last >= 0) || (prev > 0 && last <= 0));
    // theta marches monotonically toward the cone surface
    for w in res.windows(2) {
        assert!(w[1].theta.raw < w[0].theta.raw);
    }
    // the streamline radius grows away from the shock; near the sonic band
    // the fixed-step march may kink for a few samples, so allow a handful
    let mut violations: Vec<usize> = Vec::new();
    for (i, w) in res.windows(2).enumerate() {
        if w[1].radial_distance.raw < w[0].radial_distance.raw {
            violations.push(i);
        }
    }
    assert!(
        violations.len() <= 4,
        "radius not monotone at {:?} of {} samples",
        violations,
        res.len()
    );
    assert!(res[res.len() - 1].radial_distance.raw > res[0].radial_distance.raw);
    for s in res.iter() {
        assert!(s.radial_distance.raw > 0);
    }
}

#[test]
fn design_is_deterministic() {
    let run = || {
        design(
            fx(1.4),
            fx(0.9),
            fx(2.0),
            fx(1.0),
            fx(5.0),
            fx(2.0),
            fx(5.0),
            None,
            None,
            None,
        )
        .unwrap()
    };
    let a = run();
    let b = run();
    assert_eq!(a.len(), b.len());
    for (x, y) in a.iter().zip(b.iter()) {
        assert_eq!(x, y);
    }
}

#[test]
fn unreachable_mach_target_is_rejected_not_silently_wrong() {
    let r = design(
        fx(1.4),
        fx(0.9),
        fx(20.0),
        fx(1.0),
        fx(5.0),
        fx(2.0),
        fx(5.0),
        None,
        None,
        None,
    );
    assert!(matches!(
        r,
        Err(FlowError::BracketError) | Err(FlowError::NonConvergenceError)
    ));
}

#[test]
fn inconsistent_geometry_is_a_domain_error() {
    // an upstream Mach below the shock strength makes asin's argument
    // exceed one
    let r = design(
        fx(1.4),
        fx(0.9),
        fx(0.5),
        fx(1.0),
        fx(5.0),
        fx(1.43),
        fx(1.57),
        None,
        None,
        Some(100),
    );
    assert!(matches!(r, Err(FlowError::DomainError)));
}

#[test]
fn polynomial_evaluates_exactly_on_integer_coefficients() {
    let mut p = Polynomial::new(2);
    p.coeffs.push(fx(1.0));
    p.coeffs.push(fx(2.0));
    p.coeffs.push(fx(3.0));
    let v = p.eval(fx(2.0)).unwrap();
    assert_eq!(v.raw, fx(17.0).raw);
}

#[test]
fn empty_polynomial_evaluates_to_zero() {
    let p = Polynomial::new(0);
    assert_eq!(p.eval(fx(3.0)).unwrap().raw, 0);
}

#[test]
fn polynomial_eval_reports_overflow() {
    let mut p = Polynomial::new(1);
    p.coeffs.push(Fx::from_raw(0));
    p.coeffs.push(Fx::from_raw(i64::MAX));
    let big = Fx::from_raw(i64::MAX);
    assert!(matches!(p.eval(big), Err(FlowError::MathError)));
}
