use vstd::prelude::*;

use crate::error::FlowError;
use crate::fixed::{abs_i, lemma_mul_le, lemma_mul_sign_magnitude, q_avg, tz_div, Fx};

verus! {

/// Default convergence tolerance: 1e-9, rounded to the Q32.32 grid.
pub const DEFAULT_TOL_RAW: i64 = 4;

/// Default iteration budget of the bisection loop.
pub const DEFAULT_MAX_ITERS: u16 = 200;

/// The smaller of two integers.
pub open spec fn min_i(a: int, b: int) -> int {
    if a <= b {
        a
    } else {
        b
    }
}

/// The larger of two integers.
pub open spec fn max_i(a: int, b: int) -> int {
    if a <= b {
        b
    } else {
        a
    }
}

/// The tolerance a bisection call runs with.
pub open spec fn tol_s(tolerance: Option<Fx>) -> int {
    match tolerance {
        Some(t) => t@,
        None => DEFAULT_TOL_RAW as int,
    }
}

/// The iteration budget a bisection call runs with.
pub open spec fn iters_s(max_iters: Option<u16>) -> int {
    match max_iters {
        Some(n) => n as int,
        None => DEFAULT_MAX_ITERS as int,
    }
}

/// The outcome of the bisection recurrence over a deterministic residual:
/// it converged to a root, exhausted its budget, saw a strictly same-signed
/// bracket, or hit a point where the residual is undefined.
pub enum BisectOutcome {
    Converged(int),
    Exhausted,
    BadBracket,
    FailedEval,
}

/// The bisection loop as a mathematical recurrence over a deterministic
/// residual `f` (None where the residual is undefined), mirroring the
/// executable loop step for step.
pub open spec fn bisect_loop_s(
    f: spec_fn(int) -> Option<int>,
    lo: int,
    hi: int,
    flo: int,
    tol: int,
    fuel: nat,
) -> BisectOutcome
    decreases fuel,
{
    if fuel == 0 {
        BisectOutcome::Exhausted
    } else {
        let mid = tz_div(lo + hi, 2);
        match f(mid) {
            None => BisectOutcome::FailedEval,
            Some(fm) => {
                if (tol >= 0 && abs_i(fm) < tol) || tz_div(hi - lo, 2) < tol {
                    BisectOutcome::Converged(mid)
                } else if fm * flo > 0 {
                    bisect_loop_s(f, mid, hi, fm, tol, (fuel - 1) as nat)
                } else {
                    bisect_loop_s(f, lo, mid, flo, tol, (fuel - 1) as nat)
                }
            },
        }
    }
}

/// A whole bisection run as a mathematical function of its inputs: evaluate
/// the residual at both bounds, reject a strictly same-signed bracket, order
/// the bounds, and iterate.
pub open spec fn bisect_run_s(
    f: spec_fn(int) -> Option<int>,
    x1: int,
    x2: int,
    tol: int,
    fuel: nat,
) -> BisectOutcome {
    match (f(x1), f(x2)) {
        (Some(f1), Some(f2)) => if f1 * f2 > 0 {
            BisectOutcome::BadBracket
        } else {
            if x1 < x2 {
                bisect_loop_s(f, x1, x2, f1, tol, fuel)
            } else {
                bisect_loop_s(f, x2, x1, f2, tol, fuel)
            }
        },
        _ => BisectOutcome::FailedEval,
    }
}

/// The bisection recurrence does not depend on the order of the two bounds:
/// they are reordered internally, so a run over (x2, x1) is the same run.
pub proof fn lemma_bisect_run_symmetric(
    f: spec_fn(int) -> Option<int>,
    x1: int,
    x2: int,
    tol: int,
    fuel: nat,
)
    ensures
        bisect_run_s(f, x1, x2, tol, fuel) == bisect_run_s(f, x2, x1, tol, fuel),
{
    match (f(x1), f(x2)) {
        (Some(f1), Some(f2)) => {
            assert(f1 * f2 == f2 * f1) by (nonlinear_arith);
        },
        _ => {},
    }
}

/// The evidence a successful bisection run leaves behind: the returned root
/// `m` is the midpoint of a sub-bracket [a, b] of the caller's interval, the
/// residual takes values of opposite (or zero) sign at a and b, and at m it
/// either has magnitude below the tolerance or the bracket has shrunk below
/// it.
pub open spec fn root_evidence<F: Fn(Fx) -> Result<Fx, FlowError>>(
    f: F,
    x1: Fx,
    x2: Fx,
    tolerance: Option<Fx>,
    m: Fx,
) -> bool {
    exists|a: Fx, b: Fx, fa: Fx, fb: Fx, fm: Fx|
        {
            &&& min_i(x1@, x2@) <= a@ <= m@
            &&& m@ <= b@ <= max_i(x1@, x2@)
            &&& #[trigger] call_ensures(f, (a,), Ok::<Fx, FlowError>(fa))
            &&& #[trigger] call_ensures(f, (b,), Ok::<Fx, FlowError>(fb))
            &&& fa@ * fb@ <= 0
            &&& m@ == tz_div(a@ + b@, 2)
            &&& #[trigger] call_ensures(f, (m,), Ok::<Fx, FlowError>(fm))
            &&& (abs_i(fm@) < tol_s(tolerance) || tz_div(b@ - a@, 2) < tol_s(tolerance))
        }
}

/// The bisection loop, shared by the public entry point and the root
/// solvers. When `pinned` is set, the caller vouches (through `g`) that the
/// residual is a deterministic function of its argument, and the outcome is
/// then additionally pinned to the recurrence `bisect_run_s(g, ..)`: the
/// returned root is its `Converged` value, exhaustion its `Exhausted`
/// outcome, an invalid bracket its `BadBracket`, a residual failure its
/// `FailedEval` (with propagated `BracketError`/`NonConvergenceError` from
/// the residual itself carrying their own evidence instead).
pub(crate) fn bisection_core<F: Fn(Fx) -> Result<Fx, FlowError>>(
    f: &F,
    x1: Fx,
    x2: Fx,
    tolerance: Option<Fx>,
    max_iters: Option<u16>,
    Ghost(g): Ghost<spec_fn(int) -> Option<int>>,
    Ghost(pinned): Ghost<bool>,
) -> (r: Result<Fx, FlowError>)
    requires
        forall|x: Fx| min_i(x1@, x2@) <= x@ <= max_i(x1@, x2@) ==> call_requires(*f, (x,)),
        pinned ==> forall|x: Fx, out: Result<Fx, FlowError>|
            #[trigger] call_ensures(*f, (x,), out) ==> (match out {
                Ok(y) => g(x@) == Some(y@),
                Err(_) => g(x@) == None::<int>,
            }),
    ensures
        pinned ==> (match r {
            Ok(m) => bisect_run_s(g, x1@, x2@, tol_s(tolerance), iters_s(max_iters) as nat)
                == BisectOutcome::Converged(m@),
            Err(e) => {
                &&& (e == FlowError::BracketError ==> bisect_run_s(
                    g,
                    x1@,
                    x2@,
                    tol_s(tolerance),
                    iters_s(max_iters) as nat,
                ) == BisectOutcome::BadBracket || (exists|x: Fx, fe: Result<Fx, FlowError>|
                    {
                        &&& min_i(x1@, x2@) <= x@ <= max_i(x1@, x2@)
                        &&& #[trigger] call_ensures(*f, (x,), fe)
                        &&& fe == Err::<Fx, FlowError>(e)
                    }))
                &&& (e == FlowError::NonConvergenceError ==> bisect_run_s(
                    g,
                    x1@,
                    x2@,
                    tol_s(tolerance),
                    iters_s(max_iters) as nat,
                ) == BisectOutcome::Exhausted || (exists|x: Fx, fe: Result<Fx, FlowError>|
                    {
                        &&& min_i(x1@, x2@) <= x@ <= max_i(x1@, x2@)
                        &&& #[trigger] call_ensures(*f, (x,), fe)
                        &&& fe == Err::<Fx, FlowError>(e)
                    }))
                &&& (e != FlowError::BracketError && e != FlowError::NonConvergenceError
                    ==> bisect_run_s(
                    g,
                    x1@,
                    x2@,
                    tol_s(tolerance),
                    iters_s(max_iters) as nat,
                ) == BisectOutcome::FailedEval)
            },
        }),
        match r {
            Ok(m) => root_evidence(*f, x1, x2, tolerance, m),
            Err(e) => {
                ||| (e == FlowError::BracketError && exists|fa: Fx, fb: Fx|
                    {
                        &&& #[trigger] call_ensures(*f, (x1,), Ok::<Fx, FlowError>(fa))
                        &&& #[trigger] call_ensures(*f, (x2,), Ok::<Fx, FlowError>(fb))
                        &&& fa@ * fb@ > 0
                    })
                ||| (e == FlowError::NonConvergenceError && exists|fa: Fx, fb: Fx|
                    {
                        &&& #[trigger] call_ensures(*f, (x1,), Ok::<Fx, FlowError>(fa))
                        &&& #[trigger] call_ensures(*f, (x2,), Ok::<Fx, FlowError>(fb))
                        &&& fa@ * fb@ <= 0
                    })
                ||| exists|x: Fx, fe: Result<Fx, FlowError>|
                    {
                        &&& min_i(x1@, x2@) <= x@ <= max_i(x1@, x2@)
                        &&& #[trigger] call_ensures(*f, (x,), fe)
                        &&& fe == Err::<Fx, FlowError>(e)
                    }
            },
        },
{
    let tol: Fx = match tolerance {
        Some(t) => t,
        None => Fx { raw: DEFAULT_TOL_RAW },
    };
    let iters: u16 = match max_iters {
        Some(n) => n,
        None => DEFAULT_MAX_ITERS,
    };
    let ghost fuel0: nat = iters_s(max_iters) as nat;
    let fx1 = match f(x1) {
        Ok(v) => v,
        Err(e) => {
            proof {
                assert(call_ensures(*f, (x1,), Err::<Fx, FlowError>(e)));
            }
            return Err(e);
        },
    };
    let fx2 = match f(x2) {
        Ok(v) => v,
        Err(e) => {
            proof {
                assert(call_ensures(*f, (x2,), Err::<Fx, FlowError>(e)));
            }
            return Err(e);
        },
    };
    proof {
        lemma_mul_sign_magnitude(fx1@, fx2@);
        lemma_mul_le(abs_i(fx1@), abs_i(fx2@), 0x8000_0000_0000_0000, 0x8000_0000_0000_0000);
        lemma_mul_sign_magnitude(fx2@, fx1@);
    }
    if (fx1.raw as i128) * (fx2.raw as i128) > 0 {
        return Err(FlowError::BracketError);
    }
    proof {
        assert(fx2@ * fx1@ <= 0) by (nonlinear_arith)
            requires
                fx1@ * fx2@ <= 0,
        ;
    }
    let mut lower: Fx;
    let mut upper: Fx;
    let mut flo: Fx;
    let ghost mut fhi: Fx;
    if x1.raw < x2.raw {
        lower = x1;
        upper = x2;
        flo = fx1;
        proof {
            fhi = fx2;
        }
    } else {
        lower = x2;
        upper = x1;
        flo = fx2;
        proof {
            fhi = fx1;
        }
    }
    let ghost lo0: int = min_i(x1@, x2@);
    let ghost hi0: int = max_i(x1@, x2@);
    proof {
        if pinned {
            assert(bisect_run_s(g, x1@, x2@, tol@, fuel0) == bisect_loop_s(
                g,
                lower@,
                upper@,
                flo@,
                tol@,
                fuel0,
            ));
        }
    }
    let mut i: u16 = 0;
    while i < iters
        invariant
            lo0 == min_i(x1@, x2@),
            hi0 == max_i(x1@, x2@),
            lo0 <= lower@ <= upper@ <= hi0,
            call_ensures(*f, (lower,), Ok::<Fx, FlowError>(flo)),
            call_ensures(*f, (upper,), Ok::<Fx, FlowError>(fhi)),
            flo@ * fhi@ <= 0,
            tol@ == tol_s(tolerance),
            i <= iters,
            iters as int == iters_s(max_iters),
            fuel0 == iters_s(max_iters) as nat,
            forall|x: Fx| lo0 <= x@ <= hi0 ==> call_requires(*f, (x,)),
            pinned ==> forall|x: Fx, out: Result<Fx, FlowError>|
                #[trigger] call_ensures(*f, (x,), out) ==> (match out {
                    Ok(y) => g(x@) == Some(y@),
                    Err(_) => g(x@) == None::<int>,
                }),
            pinned ==> bisect_run_s(g, x1@, x2@, tol@, fuel0) == bisect_loop_s(
                g,
                lower@,
                upper@,
                flo@,
                tol@,
                (iters - i) as nat,
            ),
        decreases iters - i,
    {
        let mid = q_avg(lower, upper);
        let fm = match f(mid) {
            Ok(v) => v,
            Err(e) => {
                proof {
                    assert(call_ensures(*f, (mid,), Err::<Fx, FlowError>(e)));
                    if pinned {
                        assert(bisect_loop_s(g, lower@, upper@, flo@, tol@, (iters - i) as nat)
                            == BisectOutcome::FailedEval);
                    }
                }
                return Err(e);
            },
        };
        proof {
            if pinned {
                assert(g(mid@) == Some(fm@));
            }
        }
        let small_resid: bool = tol.raw >= 0 && (if fm.raw >= 0 {
            fm.raw < tol.raw
        } else {
            -(fm.raw as i128) < tol.raw as i128
        });
        let hw: i128 = (upper.raw as i128 - lower.raw as i128) / 2;
        let small_width: bool = hw < tol.raw as i128;
        if small_resid || small_width {
            proof {
                assert(min_i(x1@, x2@) <= lower@ <= mid@ && mid@ <= upper@ <= max_i(x1@, x2@)
                    && call_ensures(*f, (lower,), Ok::<Fx, FlowError>(flo)) && call_ensures(
                    *f,
                    (upper,),
                    Ok::<Fx, FlowError>(fhi),
                ) && flo@ * fhi@ <= 0 && mid@ == tz_div(lower@ + upper@, 2) && call_ensures(
                    *f,
                    (mid,),
                    Ok::<Fx, FlowError>(fm),
                ) && (abs_i(fm@) < tol_s(tolerance) || tz_div(upper@ - lower@, 2) < tol_s(
                    tolerance,
                )));
                assert(root_evidence(*f, x1, x2, tolerance, mid));
            }
            return Ok(mid);
        }
        proof {
            lemma_mul_sign_magnitude(fm@, flo@);
            lemma_mul_le(abs_i(fm@), abs_i(flo@), 0x8000_0000_0000_0000, 0x8000_0000_0000_0000);
        }
        if (fm.raw as i128) * (flo.raw as i128) > 0 {
            proof {
                assert(fm@ * fhi@ <= 0) by (nonlinear_arith)
                    requires
                        fm@ * flo@ > 0,
                        flo@ * fhi@ <= 0,
                ;
            }
            lower = mid;
            flo = fm;
        } else {
            upper = mid;
            proof {
                assert(flo@ * fm@ <= 0) by (nonlinear_arith)
                    requires
                        !(fm@ * flo@ > 0),
                ;
                fhi = fm;
            }
        }
        i = i + 1;
    }
    proof {
        assert(call_ensures(*f, (x1,), Ok::<Fx, FlowError>(fx1)) && call_ensures(
            *f,
            (x2,),
            Ok::<Fx, FlowError>(fx2),
        ) && fx1@ * fx2@ <= 0);
        if pinned {
            assert(bisect_loop_s(g, lower@, upper@, flo@, tol@, 0) == BisectOutcome::Exhausted);
        }
    }
    Err(FlowError::NonConvergenceError)
}

/// Classic bisection over a fallible residual function.
///
/// The two bounds need not be ordered. The residual is evaluated at both; if
/// the values share a strict sign the bracket is invalid (`BracketError`).
/// Otherwise the bracket is halved until either the residual magnitude at the
/// midpoint or half the bracket width drops below the tolerance (either
/// criterion suffices), and that midpoint is returned. An exhausted budget is
/// `NonConvergenceError`, and any failure of the residual itself propagates.
///
/// On success the returned root is pinned as the midpoint of a sub-bracket of
/// the caller's interval across which the residual does not strictly change
/// sign direction: no silently wrong root can be returned. An exhausted
/// budget carries evidence that the two bounds did evaluate to residuals of
/// non-positive product, so a strictly invalid bracket can only be reported
/// as `BracketError`. Callers whose residual is a known deterministic
/// function can use `bisection_core` to pin the whole run to the recurrence
/// `bisect_run_s`.
pub fn bisection<F: Fn(Fx) -> Result<Fx, FlowError>>(
    f: &F,
    x1: Fx,
    x2: Fx,
    tolerance: Option<Fx>,
    max_iters: Option<u16>,
) -> (r: Result<Fx, FlowError>)
    requires
        forall|x: Fx| min_i(x1@, x2@) <= x@ <= max_i(x1@, x2@) ==> call_requires(*f, (x,)),
    ensures
        match r {
            Ok(m) => root_evidence(*f, x1, x2, tolerance, m),
            Err(e) => {
                ||| (e == FlowError::BracketError && exists|fa: Fx, fb: Fx|
                    {
                        &&& #[trigger] call_ensures(*f, (x1,), Ok::<Fx, FlowError>(fa))
                        &&& #[trigger] call_ensures(*f, (x2,), Ok::<Fx, FlowError>(fb))
                        &&& fa@ * fb@ > 0
                    })
                ||| (e == FlowError::NonConvergenceError && exists|fa: Fx, fb: Fx|
                    {
                        &&& #[trigger] call_ensures(*f, (x1,), Ok::<Fx, FlowError>(fa))
                        &&& #[trigger] call_ensures(*f, (x2,), Ok::<Fx, FlowError>(fb))
                        &&& fa@ * fb@ <= 0
                    })
                ||| exists|x: Fx, fe: Result<Fx, FlowError>|
                    {
                        &&& min_i(x1@, x2@) <= x@ <= max_i(x1@, x2@)
                        &&& #[trigger] call_ensures(*f, (x,), fe)
                        &&& fe == Err::<Fx, FlowError>(e)
                    }
            },
        },
{
    bisection_core(f, x1, x2, tolerance, max_iters, Ghost(|x: int| None::<int>), Ghost(false))
}

} // verus!
