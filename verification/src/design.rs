use vstd::prelude::*;

use crate::equations::{
    calc_deflection_angle, calc_downstream_mach, calc_pressure_ratio, deflection_angle_ok,
    deflection_angle_s, downstream_mach_ok, downstream_mach_s, pressure_ratio_ok,
    pressure_ratio_s,
};
use crate::error::FlowError;
use crate::fixed::{
    abs_i, fits, q_div, q_div_s, q_mul, q_mul_s, q_neg, q_sqrt, q_sub, tz_div, Fx, SCALE,
};
use crate::numerics::{
    bisect_run_s, bisection_core, iters_s, max_i, min_i, tol_s, BisectOutcome,
};
use crate::taylormaccoll::{
    crossing_at, lemma_integrate_deterministic, solve_taylor_maccoll, step_failure_evidence,
    step_ok_at, trajectory_result, valid_uv_s, TaylorMaccollResult, VelocityVector,
};
use crate::transcend::{asin_s, cos_s, lemma_sqrt_s_is, q_asin, q_cos, q_sin, sin_s, sqrt_s, PI_RAW};

verus! {

/// Default Runge-Kutta step budget of a design run.
pub const DEFAULT_STEP_COUNT: u32 = 8000;

/// The Runge-Kutta step budget a design call runs with.
pub open spec fn steps_s(step_count: Option<u32>) -> int {
    match step_count {
        Some(n) => n as int,
        None => DEFAULT_STEP_COUNT as int,
    }
}

/// What a successful shock-strength solve leaves behind: `k` is the midpoint
/// of a sub-bracket [a, b] of the search interval across which the residual
/// pressure_ratio(.) - target changes (or touches) sign, with the usual
/// bisection convergence criterion at `k`.
pub open spec fn pressure_root_evidence(
    k: int,
    g: int,
    target: int,
    x1: int,
    x2: int,
    tol: int,
) -> bool {
    exists|a: int, b: int|
        {
            &&& min_i(x1, x2) <= a <= k
            &&& k <= b <= max_i(x1, x2)
            &&& #[trigger] pressure_ratio_ok(a, g)
            &&& #[trigger] pressure_ratio_ok(b, g)
            &&& (pressure_ratio_s(a, g) - target) * (pressure_ratio_s(b, g) - target) <= 0
            &&& k == tz_div(a + b, 2)
            &&& pressure_ratio_ok(k, g)
            &&& (abs_i(pressure_ratio_s(k, g) - target) < tol || tz_div(b - a, 2) < tol)
        }
}

/// The same evidence for the upstream-Mach solve against
/// downstream_mach(k, ., g) - target.
pub open spec fn mach_root_evidence(
    m: int,
    k: int,
    g: int,
    target: int,
    x1: int,
    x2: int,
    tol: int,
) -> bool {
    exists|a: int, b: int|
        {
            &&& min_i(x1, x2) <= a <= m
            &&& m <= b <= max_i(x1, x2)
            &&& #[trigger] downstream_mach_ok(k, a, g)
            &&& #[trigger] downstream_mach_ok(k, b, g)
            &&& (downstream_mach_s(k, a, g) - target) * (downstream_mach_s(k, b, g) - target)
                <= 0
            &&& m == tz_div(a + b, 2)
            &&& downstream_mach_ok(k, m, g)
            &&& (abs_i(downstream_mach_s(k, m, g) - target) < tol || tz_div(b - a, 2) < tol)
        }
}

/// Both bracket ends have well-defined pressure-recovery residuals of the
/// same strict sign: the interval cannot bracket a root of
/// pressure_ratio(.) - target.
pub open spec fn pressure_bracket_rejected(g: int, target: int, x1: int, x2: int) -> bool {
    &&& pressure_ratio_ok(x1, g)
    &&& pressure_ratio_ok(x2, g)
    &&& (pressure_ratio_s(x1, g) - target) * (pressure_ratio_s(x2, g) - target) > 0
}

/// Some point of the interval has a pressure-recovery residual whose
/// evaluation is not well defined (a domain or range failure in the chain).
pub open spec fn pressure_residual_failure(g: int, target: int, x1: int, x2: int) -> bool {
    exists|x: int|
        {
            &&& min_i(x1, x2) <= x <= max_i(x1, x2)
            &&& !((#[trigger] pressure_ratio_ok(x, g)) && fits(pressure_ratio_s(x, g) - target))
        }
}

/// Both bracket ends have well-defined downstream-Mach residuals of the same
/// strict sign.
pub open spec fn mach_bracket_rejected(k: int, g: int, target: int, x1: int, x2: int) -> bool {
    &&& downstream_mach_ok(k, x1, g)
    &&& downstream_mach_ok(k, x2, g)
    &&& (downstream_mach_s(k, x1, g) - target) * (downstream_mach_s(k, x2, g) - target) > 0
}

/// Some point of the interval has a downstream-Mach residual whose
/// evaluation is not well defined.
pub open spec fn mach_residual_failure(k: int, g: int, target: int, x1: int, x2: int) -> bool {
    exists|x: int|
        {
            &&& min_i(x1, x2) <= x <= max_i(x1, x2)
            &&& !((#[trigger] downstream_mach_ok(k, x, g)) && fits(
                downstream_mach_s(k, x, g) - target,
            ))
        }
}

/// The shock-strength residual as a deterministic partial function:
/// pressure_ratio(x) - target where the chain is well defined, None where it
/// is not.
pub open spec fn pressure_residual_fn(g: int, target: int) -> spec_fn(int) -> Option<int> {
    |x: int|
        if pressure_ratio_ok(x, g) && fits(pressure_ratio_s(x, g) - target) {
            Some(pressure_ratio_s(x, g) - target)
        } else {
            None
        }
}

/// The whole shock-strength solve as a mathematical function of its inputs:
/// the bisection recurrence over the pressure-recovery residual.
pub open spec fn pressure_bisect_s(
    g: int,
    target: int,
    x1: int,
    x2: int,
    tol: int,
    iters: int,
) -> BisectOutcome {
    bisect_run_s(pressure_residual_fn(g, target), x1, x2, tol, iters as nat)
}

/// The upstream-Mach residual as a deterministic partial function.
pub open spec fn mach_residual_fn(k: int, g: int, target: int) -> spec_fn(int) -> Option<int> {
    |x: int|
        if downstream_mach_ok(k, x, g) && fits(downstream_mach_s(k, x, g) - target) {
            Some(downstream_mach_s(k, x, g) - target)
        } else {
            None
        }
}

/// The whole upstream-Mach solve as a mathematical function of its inputs.
pub open spec fn mach_bisect_s(
    k: int,
    g: int,
    target: int,
    x1: int,
    x2: int,
    tol: int,
    iters: int,
) -> BisectOutcome {
    bisect_run_s(mach_residual_fn(k, g, target), x1, x2, tol, iters as nat)
}

/// Solve for the shock-strength parameter k^2 whose pressure-recovery ratio
/// meets the target, by bisection over the caller's bracket.
///
/// The residual is deterministic, so the whole run is pinned to the
/// recurrence `pressure_bisect_s`: success returns exactly its converged
/// value (hence swapping the bracket ends cannot change the root), an
/// invalid bracket is reported as `BracketError` and only there, an
/// exhausted budget reports exactly the recurrence's exhaustion, and a
/// `MathError` or `DomainError` can only come out of the residual chain
/// failing somewhere on the interval.
pub fn solve_for_k_squared(
    target_pressure_ratio: Fx,
    gamma: Fx,
    x1: Fx,
    x2: Fx,
    tolerance: Option<Fx>,
    max_iters: Option<u16>,
) -> (r: Result<Fx, FlowError>)
    ensures
        match r {
            Ok(k) => pressure_root_evidence(
                k@,
                gamma@,
                target_pressure_ratio@,
                x1@,
                x2@,
                tol_s(tolerance),
            ) && pressure_bisect_s(
                gamma@,
                target_pressure_ratio@,
                x1@,
                x2@,
                tol_s(tolerance),
                iters_s(max_iters),
            ) == BisectOutcome::Converged(k@),
            Err(e) => {
                &&& (e == FlowError::BracketError || e == FlowError::NonConvergenceError || e
                    == FlowError::MathError || e == FlowError::DomainError)
                &&& (e == FlowError::BracketError ==> pressure_bracket_rejected(
                    gamma@,
                    target_pressure_ratio@,
                    x1@,
                    x2@,
                ) && pressure_bisect_s(
                    gamma@,
                    target_pressure_ratio@,
                    x1@,
                    x2@,
                    tol_s(tolerance),
                    iters_s(max_iters),
                ) == BisectOutcome::BadBracket)
                &&& (e == FlowError::NonConvergenceError ==> !pressure_bracket_rejected(
                    gamma@,
                    target_pressure_ratio@,
                    x1@,
                    x2@,
                ) && pressure_bisect_s(
                    gamma@,
                    target_pressure_ratio@,
                    x1@,
                    x2@,
                    tol_s(tolerance),
                    iters_s(max_iters),
                ) == BisectOutcome::Exhausted)
                &&& ((e == FlowError::MathError || e == FlowError::DomainError)
                    ==> pressure_residual_failure(gamma@, target_pressure_ratio@, x1@, x2@)
                    && pressure_bisect_s(
                    gamma@,
                    target_pressure_ratio@,
                    x1@,
                    x2@,
                    tol_s(tolerance),
                    iters_s(max_iters),
                ) == BisectOutcome::FailedEval)
            },
        },
{
    let residual = |k: Fx| -> (res: Result<Fx, FlowError>)
        ensures
            res matches Ok(y) ==> pressure_ratio_ok(k@, gamma@) && y@ == pressure_ratio_s(
                k@,
                gamma@,
            ) - target_pressure_ratio@ && fits(
                pressure_ratio_s(k@, gamma@) - target_pressure_ratio@,
            ),
            res matches Err(e) ==> (e == FlowError::MathError || e == FlowError::DomainError)
                && !(pressure_ratio_ok(k@, gamma@) && fits(
                pressure_ratio_s(k@, gamma@) - target_pressure_ratio@,
            )),
        {
            let p = calc_pressure_ratio(k, gamma)?;
            q_sub(p, target_pressure_ratio)
        };
    proof {
        assert(forall|x: Fx| #[trigger] call_requires(residual, (x,)));
        assert forall|x: Fx, out: Result<Fx, FlowError>|
            #[trigger] call_ensures(residual, (x,), out) implies (match out {
            Ok(y) => pressure_residual_fn(gamma@, target_pressure_ratio@)(x@) == Some(y@),
            Err(_) => pressure_residual_fn(gamma@, target_pressure_ratio@)(x@) == None::<int>,
        }) by {}
    }
    let res = bisection_core(
        &residual,
        x1,
        x2,
        tolerance,
        max_iters,
        Ghost(pressure_residual_fn(gamma@, target_pressure_ratio@)),
        Ghost(true),
    );
    match res {
        Ok(k) => {
            proof {
                let (a, b, fa, fb, fm) = choose|a: Fx, b: Fx, fa: Fx, fb: Fx, fm: Fx|
                    {
                        &&& min_i(x1@, x2@) <= a@ <= k@
                        &&& k@ <= b@ <= max_i(x1@, x2@)
                        &&& #[trigger] call_ensures(residual, (a,), Ok::<Fx, FlowError>(fa))
                        &&& #[trigger] call_ensures(residual, (b,), Ok::<Fx, FlowError>(fb))
                        &&& fa@ * fb@ <= 0
                        &&& k@ == tz_div(a@ + b@, 2)
                        &&& #[trigger] call_ensures(residual, (k,), Ok::<Fx, FlowError>(fm))
                        &&& (abs_i(fm@) < tol_s(tolerance) || tz_div(b@ - a@, 2) < tol_s(
                            tolerance,
                        ))
                    };
                assert(fa@ == pressure_ratio_s(a@, gamma@) - target_pressure_ratio@);
                assert(fb@ == pressure_ratio_s(b@, gamma@) - target_pressure_ratio@);
                assert(pressure_root_evidence(
                    k@,
                    gamma@,
                    target_pressure_ratio@,
                    x1@,
                    x2@,
                    tol_s(tolerance),
                ));
            }
            Ok(k)
        },
        Err(e) => Err(e),
    }
}

/// Solve for the upstream Mach number whose downstream Mach meets the target,
/// given the shock strength from the first solve.
///
/// The run is pinned to the recurrence `mach_bisect_s` exactly as
/// `solve_for_k_squared` is to its own; a `DomainError` here means some
/// interval point has no physical downstream state.
pub fn solve_for_upstream_mach(
    target_mach: Fx,
    k_squared: Fx,
    gamma: Fx,
    x1: Fx,
    x2: Fx,
    tolerance: Option<Fx>,
    max_iters: Option<u16>,
) -> (r: Result<Fx, FlowError>)
    ensures
        match r {
            Ok(m) => mach_root_evidence(
                m@,
                k_squared@,
                gamma@,
                target_mach@,
                x1@,
                x2@,
                tol_s(tolerance),
            ) && mach_bisect_s(
                k_squared@,
                gamma@,
                target_mach@,
                x1@,
                x2@,
                tol_s(tolerance),
                iters_s(max_iters),
            ) == BisectOutcome::Converged(m@),
            Err(e) => {
                &&& (e == FlowError::BracketError || e == FlowError::NonConvergenceError || e
                    == FlowError::MathError || e == FlowError::DomainError)
                &&& (e == FlowError::BracketError ==> mach_bracket_rejected(
                    k_squared@,
                    gamma@,
                    target_mach@,
                    x1@,
                    x2@,
                ) && mach_bisect_s(
                    k_squared@,
                    gamma@,
                    target_mach@,
                    x1@,
                    x2@,
                    tol_s(tolerance),
                    iters_s(max_iters),
                ) == BisectOutcome::BadBracket)
                &&& (e == FlowError::NonConvergenceError ==> !mach_bracket_rejected(
                    k_squared@,
                    gamma@,
                    target_mach@,
                    x1@,
                    x2@,
                ) && mach_bisect_s(
                    k_squared@,
                    gamma@,
                    target_mach@,
                    x1@,
                    x2@,
                    tol_s(tolerance),
                    iters_s(max_iters),
                ) == BisectOutcome::Exhausted)
                &&& ((e == FlowError::MathError || e == FlowError::DomainError)
                    ==> mach_residual_failure(k_squared@, gamma@, target_mach@, x1@, x2@)
                    && mach_bisect_s(
                    k_squared@,
                    gamma@,
                    target_mach@,
                    x1@,
                    x2@,
                    tol_s(tolerance),
                    iters_s(max_iters),
                ) == BisectOutcome::FailedEval)
            },
        },
{
    let residual = |m: Fx| -> (res: Result<Fx, FlowError>)
        ensures
            res matches Ok(y) ==> downstream_mach_ok(k_squared@, m@, gamma@) && y@
                == downstream_mach_s(k_squared@, m@, gamma@) - target_mach@ && fits(
                downstream_mach_s(k_squared@, m@, gamma@) - target_mach@,
            ),
            res matches Err(e) ==> (e == FlowError::MathError || e == FlowError::DomainError)
                && !(downstream_mach_ok(k_squared@, m@, gamma@) && fits(
                downstream_mach_s(k_squared@, m@, gamma@) - target_mach@,
            )),
        {
            let p = calc_downstream_mach(k_squared, m, gamma)?;
            q_sub(p, target_mach)
        };
    proof {
        assert(forall|x: Fx| #[trigger] call_requires(residual, (x,)));
        assert forall|x: Fx, out: Result<Fx, FlowError>|
            #[trigger] call_ensures(residual, (x,), out) implies (match out {
            Ok(y) => mach_residual_fn(k_squared@, gamma@, target_mach@)(x@) == Some(y@),
            Err(_) => mach_residual_fn(k_squared@, gamma@, target_mach@)(x@) == None::<int>,
        }) by {}
    }
    let res = bisection_core(
        &residual,
        x1,
        x2,
        tolerance,
        max_iters,
        Ghost(mach_residual_fn(k_squared@, gamma@, target_mach@)),
        Ghost(true),
    );
    match res {
        Ok(m) => {
            proof {
                let (a, b, fa, fb, fm) = choose|a: Fx, b: Fx, fa: Fx, fb: Fx, fm: Fx|
                    {
                        &&& min_i(x1@, x2@) <= a@ <= m@
                        &&& m@ <= b@ <= max_i(x1@, x2@)
                        &&& #[trigger] call_ensures(residual, (a,), Ok::<Fx, FlowError>(fa))
                        &&& #[trigger] call_ensures(residual, (b,), Ok::<Fx, FlowError>(fb))
                        &&& fa@ * fb@ <= 0
                        &&& m@ == tz_div(a@ + b@, 2)
                        &&& #[trigger] call_ensures(residual, (m,), Ok::<Fx, FlowError>(fm))
                        &&& (abs_i(fm@) < tol_s(tolerance) || tz_div(b@ - a@, 2) < tol_s(
                            tolerance,
                        ))
                    };
                assert(fa@ == downstream_mach_s(k_squared@, a@, gamma@) - target_mach@);
                assert(fb@ == downstream_mach_s(k_squared@, b@, gamma@) - target_mach@);
                assert(mach_root_evidence(
                    m@,
                    k_squared@,
                    gamma@,
                    target_mach@,
                    x1@,
                    x2@,
                    tol_s(tolerance),
                ));
            }
            Ok(m)
        },
        Err(e) => Err(e),
    }
}

/// The shock angle derived from a shock strength and upstream Mach number:
/// asin(sqrt(k^2) / m).
#[verifier::opaque]
pub open spec fn shock_angle_of(k2: int, m: int) -> int {
    asin_s(q_div_s(sqrt_s(k2 * (SCALE as int)), m))
}

/// The initial similarity angle of the integration: shock angle minus
/// deflection angle.
#[verifier::opaque]
pub open spec fn initial_theta_of(k2: int, m: int, g: int) -> int {
    shock_angle_of(k2, m) - deflection_angle_s(m, shock_angle_of(k2, m), g)
}

/// The initial radial velocity component, m cos(shock angle).
#[verifier::opaque]
pub open spec fn initial_radial_of(k2: int, m: int) -> int {
    q_mul_s(m, cos_s(shock_angle_of(k2, m)))
}

/// The initial tangential velocity component, -m sin(shock angle).
#[verifier::opaque]
pub open spec fn initial_tangential_of(k2: int, m: int) -> int {
    -q_mul_s(m, sin_s(shock_angle_of(k2, m)))
}

/// A domain failure while deriving the shock geometry: a negative shock
/// strength, an arcsine argument outside (-1, 1), or a derived angle outside
/// [0, pi].
#[verifier::opaque]
pub open spec fn geometry_domain_failure(k2: int, m: int, g: int) -> bool {
    let beta = shock_angle_of(k2, m);
    ||| k2 < 0
    ||| abs_i(q_div_s(sqrt_s(k2 * (SCALE as int)), m)) >= SCALE as int
    ||| !(0 <= beta <= PI_RAW as int)
    ||| !(0 <= initial_theta_of(k2, m, g) <= PI_RAW as int)
}

/// A range failure while deriving the shock geometry: a zero upstream Mach
/// number, an undefined deflection angle, or an out-of-range fixed-point
/// step.
#[verifier::opaque]
pub open spec fn geometry_math_failure(k2: int, m: int, g: int) -> bool {
    let beta = shock_angle_of(k2, m);
    ||| m == 0
    ||| !fits(q_div_s(sqrt_s(k2 * (SCALE as int)), m))
    ||| !deflection_angle_ok(m, beta, g)
    ||| !fits(beta - deflection_angle_s(m, beta, g))
    ||| !fits(q_mul_s(m, cos_s(beta)))
    ||| !fits(q_mul_s(m, sin_s(beta)))
    ||| !fits(-q_mul_s(m, sin_s(beta)))
}

/// The integration from the derived initial state failed: the state is
/// subsonic at entry, or some prefix of well-defined, uncrossed steps ends
/// in a step that is not well defined.
#[verifier::opaque]
pub open spec fn integration_failure(k2: int, m: int, g: int, steps: int) -> bool {
    let u0 = initial_radial_of(k2, m);
    let v0 = initial_tangential_of(k2, m);
    let th0 = initial_theta_of(k2, m, g);
    ||| !valid_uv_s(u0, v0)
    ||| step_failure_evidence(u0, v0, SCALE as int, th0, tz_div(0 - th0, steps), g, steps)
}

/// The integration from the derived initial state ran its whole budget of
/// well-defined steps without a tangential-velocity crossing.
#[verifier::opaque]
pub open spec fn integration_no_crossing(k2: int, m: int, g: int, steps: int) -> bool {
    let u0 = initial_radial_of(k2, m);
    let v0 = initial_tangential_of(k2, m);
    let th0 = initial_theta_of(k2, m, g);
    let h = tz_div(0 - th0, steps);
    &&& forall|i: int|
        1 <= i <= steps ==> !(#[trigger] crossing_at(u0, v0, SCALE as int, th0, h, g, i))
    &&& forall|i: int| 0 <= i < steps ==> #[trigger] step_ok_at(u0, v0, SCALE as int, th0, h, g, i)
}

/// What a successful design run returns: the shock strength and upstream
/// Mach number are exactly the converged values of the two bisection
/// recurrences against their targets (with root-quality evidence), the
/// derived shock geometry is consistent, and the samples are the pinned
/// Runge-Kutta trajectory from the derived entry state toward decreasing
/// theta, ending at the first tangential-velocity crossing.
#[verifier::opaque]
pub open spec fn design_evidence(
    res: Seq<TaylorMaccollResult>,
    gamma: int,
    target_efficiency: int,
    target_mach: int,
    k_x1: int,
    k_x2: int,
    mach_x1: int,
    mach_x2: int,
    tol: int,
    iters: int,
    steps: int,
) -> bool {
    exists|k2v: int, mv: int|
        {
            &&& #[trigger] pressure_root_evidence(k2v, gamma, target_efficiency, k_x1, k_x2, tol)
            &&& pressure_bisect_s(gamma, target_efficiency, k_x1, k_x2, tol, iters)
                == BisectOutcome::Converged(k2v)
            &&& #[trigger] mach_root_evidence(mv, k2v, gamma, target_mach, mach_x1, mach_x2, tol)
            &&& mach_bisect_s(k2v, gamma, target_mach, mach_x1, mach_x2, tol, iters)
                == BisectOutcome::Converged(mv)
            &&& 0 <= k2v
            &&& 0 <= shock_angle_of(k2v, mv) <= PI_RAW as int
            &&& deflection_angle_ok(mv, shock_angle_of(k2v, mv), gamma)
            &&& 0 <= initial_theta_of(k2v, mv, gamma) <= PI_RAW as int
            &&& trajectory_result(
                res,
                initial_radial_of(k2v, mv),
                initial_tangential_of(k2v, mv),
                SCALE as int,
                initial_theta_of(k2v, mv, gamma),
                tz_div(0 - initial_theta_of(k2v, mv, gamma), steps),
                gamma,
                steps,
            )
        }
}

/// Why a design run failed, by error kind, each tied to the outcome of the
/// stage that produced it. `BracketError`: one of the two bisection
/// recurrences saw a strictly same-signed bracket. `NonConvergenceError`: a
/// recurrence exhausted its budget, or a full budget of well-defined
/// integration steps produced no crossing. `DomainError`: a residual chain
/// failed on the interval, or the derived geometry is inconsistent.
/// `MathError`: a range failure in a residual chain, the geometry, or the
/// integration. `InvalidMachNumber`: a subsonic or sonic-singular state at
/// or after the derived entry state.
#[verifier::opaque]
pub open spec fn design_error_evidence(
    e: FlowError,
    gamma: int,
    target_efficiency: int,
    target_mach: int,
    k_x1: int,
    k_x2: int,
    mach_x1: int,
    mach_x2: int,
    tol: int,
    iters: int,
    steps: int,
) -> bool {
    let p_run = pressure_bisect_s(gamma, target_efficiency, k_x1, k_x2, tol, iters);
    &&& (e == FlowError::BracketError || e == FlowError::NonConvergenceError || e
        == FlowError::MathError || e == FlowError::DomainError || e
        == FlowError::InvalidMachNumber)
    &&& (e == FlowError::BracketError ==> (p_run == BisectOutcome::BadBracket
        && pressure_bracket_rejected(gamma, target_efficiency, k_x1, k_x2)) || (exists|k2: int|
        {
            &&& #[trigger] pressure_root_evidence(k2, gamma, target_efficiency, k_x1, k_x2, tol)
            &&& p_run == BisectOutcome::Converged(k2)
            &&& mach_bisect_s(k2, gamma, target_mach, mach_x1, mach_x2, tol, iters)
                == BisectOutcome::BadBracket
            &&& mach_bracket_rejected(k2, gamma, target_mach, mach_x1, mach_x2)
        }))
    &&& (e == FlowError::NonConvergenceError ==> p_run == BisectOutcome::Exhausted || (exists|
        k2: int,
    |
        {
            &&& #[trigger] pressure_root_evidence(k2, gamma, target_efficiency, k_x1, k_x2, tol)
            &&& p_run == BisectOutcome::Converged(k2)
            &&& (mach_bisect_s(k2, gamma, target_mach, mach_x1, mach_x2, tol, iters)
                == BisectOutcome::Exhausted || (exists|m: int|
                {
                    &&& #[trigger] mach_root_evidence(
                        m,
                        k2,
                        gamma,
                        target_mach,
                        mach_x1,
                        mach_x2,
                        tol,
                    )
                    &&& mach_bisect_s(k2, gamma, target_mach, mach_x1, mach_x2, tol, iters)
                        == BisectOutcome::Converged(m)
                    &&& integration_no_crossing(k2, m, gamma, steps)
                }))
        }))
    &&& (e == FlowError::DomainError ==> (p_run == BisectOutcome::FailedEval
        && pressure_residual_failure(gamma, target_efficiency, k_x1, k_x2)) || (exists|k2: int|
        {
            &&& #[trigger] pressure_root_evidence(k2, gamma, target_efficiency, k_x1, k_x2, tol)
            &&& p_run == BisectOutcome::Converged(k2)
            &&& ((mach_bisect_s(k2, gamma, target_mach, mach_x1, mach_x2, tol, iters)
                == BisectOutcome::FailedEval && mach_residual_failure(
                k2,
                gamma,
                target_mach,
                mach_x1,
                mach_x2,
            )) || (exists|m: int|
                {
                    &&& #[trigger] mach_root_evidence(
                        m,
                        k2,
                        gamma,
                        target_mach,
                        mach_x1,
                        mach_x2,
                        tol,
                    )
                    &&& mach_bisect_s(k2, gamma, target_mach, mach_x1, mach_x2, tol, iters)
                        == BisectOutcome::Converged(m)
                    &&& geometry_domain_failure(k2, m, gamma)
                }))
        }))
    &&& (e == FlowError::MathError ==> (p_run == BisectOutcome::FailedEval
        && pressure_residual_failure(gamma, target_efficiency, k_x1, k_x2)) || (exists|k2: int|
        {
            &&& #[trigger] pressure_root_evidence(k2, gamma, target_efficiency, k_x1, k_x2, tol)
            &&& p_run == BisectOutcome::Converged(k2)
            &&& ((mach_bisect_s(k2, gamma, target_mach, mach_x1, mach_x2, tol, iters)
                == BisectOutcome::FailedEval && mach_residual_failure(
                k2,
                gamma,
                target_mach,
                mach_x1,
                mach_x2,
            )) || (exists|m: int|
                {
                    &&& #[trigger] mach_root_evidence(
                        m,
                        k2,
                        gamma,
                        target_mach,
                        mach_x1,
                        mach_x2,
                        tol,
                    )
                    &&& mach_bisect_s(k2, gamma, target_mach, mach_x1, mach_x2, tol, iters)
                        == BisectOutcome::Converged(m)
                    &&& (geometry_math_failure(k2, m, gamma) || integration_failure(
                        k2,
                        m,
                        gamma,
                        steps,
                    ))
                }))
        }))
    &&& (e == FlowError::InvalidMachNumber ==> exists|k2: int, m: int|
        {
            &&& #[trigger] pressure_root_evidence(k2, gamma, target_efficiency, k_x1, k_x2, tol)
            &&& p_run == BisectOutcome::Converged(k2)
            &&& #[trigger] mach_root_evidence(m, k2, gamma, target_mach, mach_x1, mach_x2, tol)
            &&& mach_bisect_s(k2, gamma, target_mach, mach_x1, mach_x2, tol, iters)
                == BisectOutcome::Converged(m)
            &&& integration_failure(k2, m, gamma, steps)
        })
}

proof fn lemma_ev_stage1(
    e: FlowError,
    gamma: int,
    target_efficiency: int,
    target_mach: int,
    k_x1: int,
    k_x2: int,
    mach_x1: int,
    mach_x2: int,
    tol: int,
    iters: int,
    steps: int,
)
    requires
        e == FlowError::BracketError || e == FlowError::NonConvergenceError || e
            == FlowError::MathError || e == FlowError::DomainError,
        e == FlowError::BracketError ==> pressure_bracket_rejected(
            gamma,
            target_efficiency,
            k_x1,
            k_x2,
        ) && pressure_bisect_s(gamma, target_efficiency, k_x1, k_x2, tol, iters)
            == BisectOutcome::BadBracket,
        e == FlowError::NonConvergenceError ==> pressure_bisect_s(
            gamma,
            target_efficiency,
            k_x1,
            k_x2,
            tol,
            iters,
        ) == BisectOutcome::Exhausted,
        (e == FlowError::MathError || e == FlowError::DomainError) ==> pressure_residual_failure(
            gamma,
            target_efficiency,
            k_x1,
            k_x2,
        ) && pressure_bisect_s(gamma, target_efficiency, k_x1, k_x2, tol, iters)
            == BisectOutcome::FailedEval,
    ensures
        design_error_evidence(
            e,
            gamma,
            target_efficiency,
            target_mach,
            k_x1,
            k_x2,
            mach_x1,
            mach_x2,
            tol,
            iters,
            steps,
        ),
{
    reveal(design_error_evidence);
}

proof fn lemma_ev_stage2(
    k2: int,
    e: FlowError,
    gamma: int,
    target_efficiency: int,
    target_mach: int,
    k_x1: int,
    k_x2: int,
    mach_x1: int,
    mach_x2: int,
    tol: int,
    iters: int,
    steps: int,
)
    requires
        pressure_root_evidence(k2, gamma, target_efficiency, k_x1, k_x2, tol),
        pressure_bisect_s(gamma, target_efficiency, k_x1, k_x2, tol, iters)
            == BisectOutcome::Converged(k2),
        e == FlowError::BracketError || e == FlowError::NonConvergenceError || e
            == FlowError::MathError || e == FlowError::DomainError,
        e == FlowError::BracketError ==> mach_bracket_rejected(
            k2,
            gamma,
            target_mach,
            mach_x1,
            mach_x2,
        ) && mach_bisect_s(k2, gamma, target_mach, mach_x1, mach_x2, tol, iters)
            == BisectOutcome::BadBracket,
        e == FlowError::NonConvergenceError ==> mach_bisect_s(
            k2,
            gamma,
            target_mach,
            mach_x1,
            mach_x2,
            tol,
            iters,
        ) == BisectOutcome::Exhausted,
        (e == FlowError::MathError || e == FlowError::DomainError) ==> mach_residual_failure(
            k2,
            gamma,
            target_mach,
            mach_x1,
            mach_x2,
        ) && mach_bisect_s(k2, gamma, target_mach, mach_x1, mach_x2, tol, iters)
            == BisectOutcome::FailedEval,
    ensures
        design_error_evidence(
            e,
            gamma,
            target_efficiency,
            target_mach,
            k_x1,
            k_x2,
            mach_x1,
            mach_x2,
            tol,
            iters,
            steps,
        ),
{
    reveal(design_error_evidence);
}

proof fn lemma_ev_geometry(
    k2: int,
    m: int,
    e: FlowError,
    gamma: int,
    target_efficiency: int,
    target_mach: int,
    k_x1: int,
    k_x2: int,
    mach_x1: int,
    mach_x2: int,
    tol: int,
    iters: int,
    steps: int,
)
    requires
        pressure_root_evidence(k2, gamma, target_efficiency, k_x1, k_x2, tol),
        pressure_bisect_s(gamma, target_efficiency, k_x1, k_x2, tol, iters)
            == BisectOutcome::Converged(k2),
        mach_root_evidence(m, k2, gamma, target_mach, mach_x1, mach_x2, tol),
        mach_bisect_s(k2, gamma, target_mach, mach_x1, mach_x2, tol, iters)
            == BisectOutcome::Converged(m),
        e == FlowError::DomainError || e == FlowError::MathError,
        e == FlowError::DomainError ==> geometry_domain_failure(k2, m, gamma),
        e == FlowError::MathError ==> geometry_math_failure(k2, m, gamma),
    ensures
        design_error_evidence(
            e,
            gamma,
            target_efficiency,
            target_mach,
            k_x1,
            k_x2,
            mach_x1,
            mach_x2,
            tol,
            iters,
            steps,
        ),
{
    reveal(design_error_evidence);
}

/// The integration stage of a design run, from the derived entry state.
#[verifier::rlimit(100)]
fn design_integrate(
    initial: VelocityVector,
    initial_theta: Fx,
    gamma: Fx,
    step_count: Option<u32>,
    Ghost(k2g): Ghost<int>,
    Ghost(mg): Ghost<int>,
    Ghost(tgt_e): Ghost<int>,
    Ghost(tgt_m): Ghost<int>,
    Ghost(kx1): Ghost<int>,
    Ghost(kx2): Ghost<int>,
    Ghost(mx1): Ghost<int>,
    Ghost(mx2): Ghost<int>,
    Ghost(tol): Ghost<int>,
    Ghost(itr): Ghost<int>,
) -> (r: Result<Vec<TaylorMaccollResult>, FlowError>)
    requires
        step_count matches Some(n) ==> 1 <= n,
        pressure_root_evidence(k2g, gamma@, tgt_e, kx1, kx2, tol),
        pressure_bisect_s(gamma@, tgt_e, kx1, kx2, tol, itr) == BisectOutcome::Converged(k2g),
        mach_root_evidence(mg, k2g, gamma@, tgt_m, mx1, mx2, tol),
        mach_bisect_s(k2g, gamma@, tgt_m, mx1, mx2, tol, itr) == BisectOutcome::Converged(mg),
        0 <= k2g,
        0 <= shock_angle_of(k2g, mg) <= PI_RAW as int,
        deflection_angle_ok(mg, shock_angle_of(k2g, mg), gamma@),
        initial_theta@ == initial_theta_of(k2g, mg, gamma@),
        0 <= initial_theta@ <= PI_RAW as int,
        initial.radial_component@ == initial_radial_of(k2g, mg),
        initial.tangential_component@ == initial_tangential_of(k2g, mg),
    ensures
        match r {
            Ok(res) => design_evidence(
                res@,
                gamma@,
                tgt_e,
                tgt_m,
                kx1,
                kx2,
                mx1,
                mx2,
                tol,
                itr,
                steps_s(step_count),
            ),
            Err(e) => design_error_evidence(
                e,
                gamma@,
                tgt_e,
                tgt_m,
                kx1,
                kx2,
                mx1,
                mx2,
                tol,
                itr,
                steps_s(step_count),
            ),
        },
{
    let ghost stp: int = steps_s(step_count);
    let u0 = initial.radial_component;
    let v0 = initial.tangential_component;
    let steps: u32 = match step_count {
        Some(n) => n,
        None => DEFAULT_STEP_COUNT,
    };
    let final_t = Fx { raw: 0 };
    let init_r = Fx { raw: SCALE };
    match solve_taylor_maccoll(initial, initial_theta, final_t, init_r, gamma, steps) {
        Ok(res) => {
            proof {
                lemma_design_evidence_intro(
                    res@,
                    k2g,
                    mg,
                    gamma@,
                    tgt_e,
                    tgt_m,
                    kx1,
                    kx2,
                    mx1,
                    mx2,
                    tol,
                    itr,
                    stp,
                );
            }
            Ok(res)
        },
        Err(e) => {
            proof {
                let ghost gh: int = tz_div(final_t@ - initial_theta@, steps as int);
                if e == FlowError::NonConvergenceError {
                    assert forall|i: int| 1 <= i <= stp implies !(#[trigger] crossing_at(
                        u0@,
                        v0@,
                        SCALE as int,
                        initial_theta@,
                        gh,
                        gamma@,
                        i,
                    )) by {
                        assert(!crossing_at(
                            initial.radial_component@,
                            initial.tangential_component@,
                            init_r@,
                            initial_theta@,
                            tz_div(final_t@ - initial_theta@, steps as int),
                            gamma@,
                            i,
                        ));
                    }
                    assert forall|i: int| 0 <= i < stp implies #[trigger] step_ok_at(
                        u0@,
                        v0@,
                        SCALE as int,
                        initial_theta@,
                        gh,
                        gamma@,
                        i,
                    ) by {
                        assert(step_ok_at(
                            initial.radial_component@,
                            initial.tangential_component@,
                            init_r@,
                            initial_theta@,
                            tz_div(final_t@ - initial_theta@, steps as int),
                            gamma@,
                            i,
                        ));
                    }
                }
                lemma_ev_integration_from_run(
                    e,
                    k2g,
                    mg,
                    u0@,
                    v0@,
                    initial_theta@,
                    tz_div(final_t@ - initial_theta@, steps as int),
                    gamma@,
                    tgt_e,
                    tgt_m,
                    kx1,
                    kx2,
                    mx1,
                    mx2,
                    tol,
                    itr,
                    stp,
                );
            }
            Err(e)
        },
    }
}

/// The geometry and integration stages of a design run, from already
/// solved shock strength and upstream Mach number. The ghost arguments name
/// the targets, brackets and tolerance of the two root solves, whose
/// evidence travels into the run's own evidence.
#[verifier::rlimit(100)]
fn design_from_roots(
    k_squared: Fx,
    upstream_mach: Fx,
    gamma: Fx,
    step_count: Option<u32>,
    Ghost(tgt_e): Ghost<int>,
    Ghost(tgt_m): Ghost<int>,
    Ghost(kx1): Ghost<int>,
    Ghost(kx2): Ghost<int>,
    Ghost(mx1): Ghost<int>,
    Ghost(mx2): Ghost<int>,
    Ghost(tol): Ghost<int>,
    Ghost(itr): Ghost<int>,
) -> (r: Result<Vec<TaylorMaccollResult>, FlowError>)
    requires
        step_count matches Some(n) ==> 1 <= n,
        pressure_root_evidence(k_squared@, gamma@, tgt_e, kx1, kx2, tol),
        pressure_bisect_s(gamma@, tgt_e, kx1, kx2, tol, itr) == BisectOutcome::Converged(
            k_squared@,
        ),
        mach_root_evidence(upstream_mach@, k_squared@, gamma@, tgt_m, mx1, mx2, tol),
        mach_bisect_s(k_squared@, gamma@, tgt_m, mx1, mx2, tol, itr) == BisectOutcome::Converged(
            upstream_mach@,
        ),
    ensures
        match r {
            Ok(res) => design_evidence(
                res@,
                gamma@,
                tgt_e,
                tgt_m,
                kx1,
                kx2,
                mx1,
                mx2,
                tol,
                itr,
                steps_s(step_count),
            ),
            Err(e) => design_error_evidence(
                e,
                gamma@,
                tgt_e,
                tgt_m,
                kx1,
                kx2,
                mx1,
                mx2,
                tol,
                itr,
                steps_s(step_count),
            ),
        },
{
    let ghost k2g: int = k_squared@;
    let ghost mg: int = upstream_mach@;
    let ghost stp: int = steps_s(step_count);
    let sq = match q_sqrt(k_squared) {
        Ok(v) => v,
        Err(e) => {
            proof {
                reveal(geometry_domain_failure);
                reveal(shock_angle_of);
                reveal(initial_theta_of);
                assert(geometry_domain_failure(k2g, mg, gamma@));
                lemma_ev_geometry(
                    k2g,
                    mg,
                    e,
                    gamma@,
                    tgt_e,
                    tgt_m,
                    kx1,
                    kx2,
                    mx1,
                    mx2,
                    tol,
                    itr,
                    stp,
                );
            }
            return Err(e);
        },
    };
    proof {
        lemma_sqrt_s_is(k_squared@ * (SCALE as int), sq@);
    }
    let ratio = match q_div(sq, upstream_mach) {
        Ok(v) => v,
        Err(e) => {
            proof {
                reveal(geometry_math_failure);
                reveal(shock_angle_of);
                reveal(initial_theta_of);
                reveal(initial_radial_of);
                reveal(initial_tangential_of);
                assert(geometry_math_failure(k2g, mg, gamma@));
                lemma_ev_geometry(
                    k2g,
                    mg,
                    e,
                    gamma@,
                    tgt_e,
                    tgt_m,
                    kx1,
                    kx2,
                    mx1,
                    mx2,
                    tol,
                    itr,
                    stp,
                );
            }
            return Err(e);
        },
    };
    let shock_angle = match q_asin(ratio) {
        Ok(v) => v,
        Err(e) => {
            proof {
                reveal(geometry_domain_failure);
                reveal(shock_angle_of);
                reveal(initial_theta_of);
                assert(geometry_domain_failure(k2g, mg, gamma@));
                lemma_ev_geometry(
                    k2g,
                    mg,
                    e,
                    gamma@,
                    tgt_e,
                    tgt_m,
                    kx1,
                    kx2,
                    mx1,
                    mx2,
                    tol,
                    itr,
                    stp,
                );
            }
            return Err(e);
        },
    };
    proof {
        reveal(shock_angle_of);
        assert(shock_angle@ == shock_angle_of(k2g, mg));
    }
    if shock_angle.raw < 0 || shock_angle.raw > PI_RAW {
        proof {
            reveal(geometry_domain_failure);
            reveal(shock_angle_of);
            reveal(initial_theta_of);
            assert(geometry_domain_failure(k2g, mg, gamma@));
            lemma_ev_geometry(
                k2g,
                mg,
                FlowError::DomainError,
                gamma@,
                tgt_e,
                tgt_m,
                kx1,
                kx2,
                mx1,
                mx2,
                tol,
                itr,
                stp,
            );
        }
        return Err(FlowError::DomainError);
    }
    let deflection = match calc_deflection_angle(upstream_mach, shock_angle, gamma) {
        Ok(v) => v,
        Err(e) => {
            proof {
                reveal(geometry_math_failure);
                reveal(shock_angle_of);
                reveal(initial_theta_of);
                reveal(initial_radial_of);
                reveal(initial_tangential_of);
                assert(geometry_math_failure(k2g, mg, gamma@));
                lemma_ev_geometry(
                    k2g,
                    mg,
                    e,
                    gamma@,
                    tgt_e,
                    tgt_m,
                    kx1,
                    kx2,
                    mx1,
                    mx2,
                    tol,
                    itr,
                    stp,
                );
            }
            return Err(e);
        },
    };
    let initial_theta = match q_sub(shock_angle, deflection) {
        Ok(v) => v,
        Err(e) => {
            proof {
                reveal(geometry_math_failure);
                reveal(shock_angle_of);
                reveal(initial_theta_of);
                reveal(initial_radial_of);
                reveal(initial_tangential_of);
                assert(geometry_math_failure(k2g, mg, gamma@));
                lemma_ev_geometry(
                    k2g,
                    mg,
                    e,
                    gamma@,
                    tgt_e,
                    tgt_m,
                    kx1,
                    kx2,
                    mx1,
                    mx2,
                    tol,
                    itr,
                    stp,
                );
            }
            return Err(e);
        },
    };
    proof {
        reveal(shock_angle_of);
        reveal(initial_theta_of);
        assert(initial_theta@ == initial_theta_of(k2g, mg, gamma@));
    }
    if initial_theta.raw < 0 || initial_theta.raw > PI_RAW {
        proof {
            reveal(geometry_domain_failure);
            reveal(shock_angle_of);
            reveal(initial_theta_of);
            assert(geometry_domain_failure(k2g, mg, gamma@));
            lemma_ev_geometry(
                k2g,
                mg,
                FlowError::DomainError,
                gamma@,
                tgt_e,
                tgt_m,
                kx1,
                kx2,
                mx1,
                mx2,
                tol,
                itr,
                stp,
            );
        }
        return Err(FlowError::DomainError);
    }
    let c = q_cos(shock_angle);
    let s = q_sin(shock_angle);
    let u0 = match q_mul(upstream_mach, c) {
        Ok(v) => v,
        Err(e) => {
            proof {
                reveal(geometry_math_failure);
                reveal(shock_angle_of);
                reveal(initial_theta_of);
                reveal(initial_radial_of);
                reveal(initial_tangential_of);
                assert(geometry_math_failure(k2g, mg, gamma@));
                lemma_ev_geometry(
                    k2g,
                    mg,
                    e,
                    gamma@,
                    tgt_e,
                    tgt_m,
                    kx1,
                    kx2,
                    mx1,
                    mx2,
                    tol,
                    itr,
                    stp,
                );
            }
            return Err(e);
        },
    };
    let ms = match q_mul(upstream_mach, s) {
        Ok(v) => v,
        Err(e) => {
            proof {
                reveal(geometry_math_failure);
                reveal(shock_angle_of);
                reveal(initial_theta_of);
                reveal(initial_radial_of);
                reveal(initial_tangential_of);
                assert(geometry_math_failure(k2g, mg, gamma@));
                lemma_ev_geometry(
                    k2g,
                    mg,
                    e,
                    gamma@,
                    tgt_e,
                    tgt_m,
                    kx1,
                    kx2,
                    mx1,
                    mx2,
                    tol,
                    itr,
                    stp,
                );
            }
            return Err(e);
        },
    };
    let v0 = match q_neg(ms) {
        Ok(v) => v,
        Err(e) => {
            proof {
                reveal(geometry_math_failure);
                reveal(shock_angle_of);
                reveal(initial_theta_of);
                reveal(initial_radial_of);
                reveal(initial_tangential_of);
                assert(geometry_math_failure(k2g, mg, gamma@));
                lemma_ev_geometry(
                    k2g,
                    mg,
                    e,
                    gamma@,
                    tgt_e,
                    tgt_m,
                    kx1,
                    kx2,
                    mx1,
                    mx2,
                    tol,
                    itr,
                    stp,
                );
            }
            return Err(e);
        },
    };
    proof {
        reveal(shock_angle_of);
        reveal(initial_radial_of);
        reveal(initial_tangential_of);
        assert(u0@ == initial_radial_of(k2g, mg));
        assert(v0@ == initial_tangential_of(k2g, mg));
    }
    let initial = VelocityVector { radial_component: u0, tangential_component: v0 };
    design_integrate(
        initial,
        initial_theta,
        gamma,
        step_count,
        Ghost(k2g),
        Ghost(mg),
        Ghost(tgt_e),
        Ghost(tgt_m),
        Ghost(kx1),
        Ghost(kx2),
        Ghost(mx1),
        Ghost(mx2),
        Ghost(tol),
        Ghost(itr),
    )
}

proof fn lemma_design_evidence_intro(
    res: Seq<TaylorMaccollResult>,
    k2: int,
    m: int,
    gamma: int,
    target_efficiency: int,
    target_mach: int,
    k_x1: int,
    k_x2: int,
    mach_x1: int,
    mach_x2: int,
    tol: int,
    iters: int,
    steps: int,
)
    requires
        pressure_root_evidence(k2, gamma, target_efficiency, k_x1, k_x2, tol),
        pressure_bisect_s(gamma, target_efficiency, k_x1, k_x2, tol, iters)
            == BisectOutcome::Converged(k2),
        mach_root_evidence(m, k2, gamma, target_mach, mach_x1, mach_x2, tol),
        mach_bisect_s(k2, gamma, target_mach, mach_x1, mach_x2, tol, iters)
            == BisectOutcome::Converged(m),
        0 <= k2,
        0 <= shock_angle_of(k2, m) <= PI_RAW as int,
        deflection_angle_ok(m, shock_angle_of(k2, m), gamma),
        0 <= initial_theta_of(k2, m, gamma) <= PI_RAW as int,
        trajectory_result(
            res,
            initial_radial_of(k2, m),
            initial_tangential_of(k2, m),
            SCALE as int,
            initial_theta_of(k2, m, gamma),
            tz_div(0 - initial_theta_of(k2, m, gamma), steps),
            gamma,
            steps,
        ),
    ensures
        design_evidence(
            res,
            gamma,
            target_efficiency,
            target_mach,
            k_x1,
            k_x2,
            mach_x1,
            mach_x2,
            tol,
            iters,
            steps,
        ),
{
    reveal(design_evidence);
}

proof fn lemma_ev_integration_from_run(
    e: FlowError,
    k2: int,
    m: int,
    u0v: int,
    v0v: int,
    th0v: int,
    h: int,
    gamma: int,
    target_efficiency: int,
    target_mach: int,
    k_x1: int,
    k_x2: int,
    mach_x1: int,
    mach_x2: int,
    tol: int,
    iters: int,
    steps: int,
)
    requires
        pressure_root_evidence(k2, gamma, target_efficiency, k_x1, k_x2, tol),
        pressure_bisect_s(gamma, target_efficiency, k_x1, k_x2, tol, iters)
            == BisectOutcome::Converged(k2),
        mach_root_evidence(m, k2, gamma, target_mach, mach_x1, mach_x2, tol),
        mach_bisect_s(k2, gamma, target_mach, mach_x1, mach_x2, tol, iters)
            == BisectOutcome::Converged(m),
        u0v == initial_radial_of(k2, m),
        v0v == initial_tangential_of(k2, m),
        th0v == initial_theta_of(k2, m, gamma),
        h == tz_div(0 - th0v, steps),
        e == FlowError::InvalidMachNumber || e == FlowError::MathError || e
            == FlowError::NonConvergenceError,
        (e == FlowError::InvalidMachNumber || e == FlowError::MathError) ==> !valid_uv_s(
            u0v,
            v0v,
        ) || step_failure_evidence(u0v, v0v, SCALE as int, th0v, h, gamma, steps),
        e == FlowError::NonConvergenceError ==> (forall|i: int|
            1 <= i <= steps ==> !(#[trigger] crossing_at(
                u0v,
                v0v,
                SCALE as int,
                th0v,
                h,
                gamma,
                i,
            ))) && (forall|i: int|
            0 <= i < steps ==> #[trigger] step_ok_at(u0v, v0v, SCALE as int, th0v, h, gamma, i)),
    ensures
        design_error_evidence(
            e,
            gamma,
            target_efficiency,
            target_mach,
            k_x1,
            k_x2,
            mach_x1,
            mach_x2,
            tol,
            iters,
            steps,
        ),
{
    reveal(design_error_evidence);
    reveal(integration_failure);
    reveal(integration_no_crossing);
    if e == FlowError::InvalidMachNumber || e == FlowError::MathError {
        assert(integration_failure(k2, m, gamma, steps));
    }
    if e == FlowError::NonConvergenceError {
        assert(integration_no_crossing(k2, m, gamma, steps));
    }
}

/// A design run is a mathematical function of its inputs: two successful
/// runs with the same arguments return identical sample sequences. The two
/// root solves are pinned by the bisection recurrences and the integration
/// by the Runge-Kutta recurrence, so the whole output is determined.
pub proof fn lemma_design_deterministic(
    res1: Seq<TaylorMaccollResult>,
    res2: Seq<TaylorMaccollResult>,
    gamma: int,
    target_efficiency: int,
    target_mach: int,
    k_x1: int,
    k_x2: int,
    mach_x1: int,
    mach_x2: int,
    tol: int,
    iters: int,
    steps: int,
)
    requires
        design_evidence(
            res1,
            gamma,
            target_efficiency,
            target_mach,
            k_x1,
            k_x2,
            mach_x1,
            mach_x2,
            tol,
            iters,
            steps,
        ),
        design_evidence(
            res2,
            gamma,
            target_efficiency,
            target_mach,
            k_x1,
            k_x2,
            mach_x1,
            mach_x2,
            tol,
            iters,
            steps,
        ),
    ensures
        res1 == res2,
{
    reveal(design_evidence);
    let (ka, ma) = choose|k2v: int, mv: int|
        {
            &&& #[trigger] pressure_root_evidence(k2v, gamma, target_efficiency, k_x1, k_x2, tol)
            &&& pressure_bisect_s(gamma, target_efficiency, k_x1, k_x2, tol, iters)
                == BisectOutcome::Converged(k2v)
            &&& #[trigger] mach_root_evidence(mv, k2v, gamma, target_mach, mach_x1, mach_x2, tol)
            &&& mach_bisect_s(k2v, gamma, target_mach, mach_x1, mach_x2, tol, iters)
                == BisectOutcome::Converged(mv)
            &&& 0 <= k2v
            &&& 0 <= shock_angle_of(k2v, mv) <= PI_RAW as int
            &&& deflection_angle_ok(mv, shock_angle_of(k2v, mv), gamma)
            &&& 0 <= initial_theta_of(k2v, mv, gamma) <= PI_RAW as int
            &&& trajectory_result(
                res1,
                initial_radial_of(k2v, mv),
                initial_tangential_of(k2v, mv),
                SCALE as int,
                initial_theta_of(k2v, mv, gamma),
                tz_div(0 - initial_theta_of(k2v, mv, gamma), steps),
                gamma,
                steps,
            )
        };
    let (kb, mb) = choose|k2v: int, mv: int|
        {
            &&& #[trigger] pressure_root_evidence(k2v, gamma, target_efficiency, k_x1, k_x2, tol)
            &&& pressure_bisect_s(gamma, target_efficiency, k_x1, k_x2, tol, iters)
                == BisectOutcome::Converged(k2v)
            &&& #[trigger] mach_root_evidence(mv, k2v, gamma, target_mach, mach_x1, mach_x2, tol)
            &&& mach_bisect_s(k2v, gamma, target_mach, mach_x1, mach_x2, tol, iters)
                == BisectOutcome::Converged(mv)
            &&& 0 <= k2v
            &&& 0 <= shock_angle_of(k2v, mv) <= PI_RAW as int
            &&& deflection_angle_ok(mv, shock_angle_of(k2v, mv), gamma)
            &&& 0 <= initial_theta_of(k2v, mv, gamma) <= PI_RAW as int
            &&& trajectory_result(
                res2,
                initial_radial_of(k2v, mv),
                initial_tangential_of(k2v, mv),
                SCALE as int,
                initial_theta_of(k2v, mv, gamma),
                tz_div(0 - initial_theta_of(k2v, mv, gamma), steps),
                gamma,
                steps,
            )
        };
    assert(kb == ka && mb == ma);
    lemma_integrate_deterministic(
        res1,
        res2,
        initial_radial_of(ka, ma),
        initial_tangential_of(ka, ma),
        SCALE as int,
        initial_theta_of(ka, ma, gamma),
        tz_div(0 - initial_theta_of(ka, ma, gamma), steps),
        gamma,
        steps,
    );
}

#[verifier::rlimit(100)]
#[verifier::spinoff_prover]
pub fn design(
    gamma: Fx,
    target_efficiency: Fx,
    target_mach: Fx,
    k_x1: Fx,
    k_x2: Fx,
    mach_x1: Fx,
    mach_x2: Fx,
    tolerance: Option<Fx>,
    max_iters: Option<u16>,
    step_count: Option<u32>,
) -> (r: Result<Vec<TaylorMaccollResult>, FlowError>)
    requires
        step_count matches Some(n) ==> 1 <= n,
    ensures
        match r {
            Ok(res) => design_evidence(
                res@,
                gamma@,
                target_efficiency@,
                target_mach@,
                k_x1@,
                k_x2@,
                mach_x1@,
                mach_x2@,
                tol_s(tolerance),
                iters_s(max_iters),
                steps_s(step_count),
            ),
            Err(e) => design_error_evidence(
                e,
                gamma@,
                target_efficiency@,
                target_mach@,
                k_x1@,
                k_x2@,
                mach_x1@,
                mach_x2@,
                tol_s(tolerance),
                iters_s(max_iters),
                steps_s(step_count),
            ),
        },
{
    let ghost tol: int = tol_s(tolerance);
    let ghost itr: int = iters_s(max_iters);
    let ghost stp: int = steps_s(step_count);
    let k_squared = match solve_for_k_squared(
        target_efficiency,
        gamma,
        k_x1,
        k_x2,
        tolerance,
        max_iters,
    ) {
        Ok(v) => v,
        Err(e) => {
            proof {
                lemma_ev_stage1(
                    e,
                    gamma@,
                    target_efficiency@,
                    target_mach@,
                    k_x1@,
                    k_x2@,
                    mach_x1@,
                    mach_x2@,
                    tol,
                    itr,
                    stp,
                );
            }
            return Err(e);
        },
    };
    let ghost k2g: int = k_squared@;
    let upstream_mach = match solve_for_upstream_mach(
        target_mach,
        k_squared,
        gamma,
        mach_x1,
        mach_x2,
        tolerance,
        max_iters,
    ) {
        Ok(v) => v,
        Err(e) => {
            proof {
                lemma_ev_stage2(
                    k2g,
                    e,
                    gamma@,
                    target_efficiency@,
                    target_mach@,
                    k_x1@,
                    k_x2@,
                    mach_x1@,
                    mach_x2@,
                    tol,
                    itr,
                    stp,
                );
            }
            return Err(e);
        },
    };
    design_from_roots(
        k_squared,
        upstream_mach,
        gamma,
        step_count,
        Ghost(target_efficiency@),
        Ghost(target_mach@),
        Ghost(k_x1@),
        Ghost(k_x2@),
        Ghost(mach_x1@),
        Ghost(mach_x2@),
        Ghost(tol_s(tolerance)),
        Ghost(iters_s(max_iters)),
    )
}

} // verus!
