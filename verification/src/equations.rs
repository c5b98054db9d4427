use vstd::prelude::*;

use crate::error::FlowError;
use crate::fixed::{fits, q_add, q_div, q_div_s, q_mul, q_mul_s, q_sqrt, q_sub, Fx, SCALE};
use crate::transcend::{
    atan_s, cos_s, exp_oob_s, exp_s, lemma_q_mul_s_nonneg, lemma_sqrt_s_is, ln_s, pow_s, q_atan,
    q_cos, q_pow, q_sin, sin_s, sqrt_s, HALF_PI_RAW, PI_RAW,
};
use crate::fixed::abs_i;

verus! {

// ---------------------------------------------------------------------------
// Stagnation-pressure-recovery ratio.
// ---------------------------------------------------------------------------

/// The stagnation-pressure-recovery ratio across a conical shock of strength
/// k^2, as the exact fixed-point evaluation of
/// ((g+1)k^2 / ((g-1)k^2 + 2))^(g/(g-1)) * ((g+1) / (2gk^2 - g + 1))^(1/(g-1)).
pub open spec fn pressure_ratio_s(k: int, g: int) -> int {
    let sc = SCALE as int;
    let gp1 = g + sc;
    let gm1 = g - sc;
    let num1 = q_mul_s(gp1, k);
    let den1 = q_mul_s(gm1, k) + 2 * sc;
    let b1 = q_div_s(num1, den1);
    let gk = q_mul_s(g, k);
    let den2 = gk + gk - g + sc;
    let b2 = q_div_s(gp1, den2);
    let e1 = q_div_s(g, gm1);
    let e2 = q_div_s(sc, gm1);
    q_mul_s(pow_s(b1, e1), pow_s(b2, e2))
}

/// Exactly when every step of `pressure_ratio_s` is well defined and in
/// range: no zero denominator (so g != 1), positive bases for the powers,
/// and no intermediate overflow.
pub open spec fn pressure_ratio_ok(k: int, g: int) -> bool {
    let sc = SCALE as int;
    let gp1 = g + sc;
    let gm1 = g - sc;
    let num1 = q_mul_s(gp1, k);
    let d1a = q_mul_s(gm1, k);
    let den1 = d1a + 2 * sc;
    let b1 = q_div_s(num1, den1);
    let gk = q_mul_s(g, k);
    let gk2 = gk + gk;
    let d2a = gk2 - g;
    let den2 = d2a + sc;
    let b2 = q_div_s(gp1, den2);
    let e1 = q_div_s(g, gm1);
    let e2 = q_div_s(sc, gm1);
    let m1 = q_mul_s(e1, ln_s(b1));
    let m2 = q_mul_s(e2, ln_s(b2));
    &&& fits(gp1)
    &&& fits(gm1)
    &&& fits(num1)
    &&& fits(d1a)
    &&& fits(den1)
    &&& den1 != 0
    &&& fits(b1)
    &&& fits(gk)
    &&& fits(gk2)
    &&& fits(d2a)
    &&& fits(den2)
    &&& den2 != 0
    &&& fits(b2)
    &&& gm1 != 0
    &&& fits(e1)
    &&& fits(e2)
    &&& b1 > 0
    &&& fits(m1)
    &&& !exp_oob_s(m1)
    &&& b2 > 0
    &&& fits(m2)
    &&& !exp_oob_s(m2)
    &&& fits(q_mul_s(exp_s(m1), exp_s(m2)))
}

/// Stagnation-pressure-recovery ratio as a function of shock strength; it is
/// what the design's first root solve inverts. Returns exactly
/// `pressure_ratio_s` (never negative, as a product of two exponentials),
/// and succeeds exactly on `pressure_ratio_ok`.
pub fn calc_pressure_ratio(k_squared: Fx, gamma: Fx) -> (r: Result<Fx, FlowError>)
    ensures
        match r {
            Ok(v) => pressure_ratio_ok(k_squared@, gamma@) && v@ == pressure_ratio_s(
                k_squared@,
                gamma@,
            ) && 0 <= v@,
            Err(e) => !pressure_ratio_ok(k_squared@, gamma@) && (e == FlowError::MathError || e
                == FlowError::DomainError),
        },
{
    let one = Fx { raw: SCALE };
    let two = Fx { raw: 2 * SCALE };
    let gp1 = q_add(gamma, one)?;
    let gm1 = q_sub(gamma, one)?;
    let num1 = q_mul(gp1, k_squared)?;
    let d1a = q_mul(gm1, k_squared)?;
    let den1 = q_add(d1a, two)?;
    let b1 = q_div(num1, den1)?;
    let gk = q_mul(gamma, k_squared)?;
    let gk2 = q_add(gk, gk)?;
    let d2a = q_sub(gk2, gamma)?;
    let den2 = q_add(d2a, one)?;
    let b2 = q_div(gp1, den2)?;
    let e1 = q_div(gamma, gm1)?;
    let e2 = q_div(one, gm1)?;
    let p1 = q_pow(b1, e1)?;
    let p2 = q_pow(b2, e2)?;
    proof {
        lemma_q_mul_s_nonneg(p1@, p2@);
    }
    q_mul(p1, p2)
}

// ---------------------------------------------------------------------------
// Downstream Mach number.
// ---------------------------------------------------------------------------

/// The squared Mach number immediately behind the shock system, as the exact
/// fixed-point evaluation of the closed form
/// ((g+1)^2 M^2 k^2 - 4(k^2-1)(gk^2+1)) / ((2gk^2 - (g-1))((g-1)k^2 + 2)).
pub open spec fn downstream_mach_sq_s(k: int, m: int, g: int) -> int {
    let sc = SCALE as int;
    let gp1 = g + sc;
    let t1k = q_mul_s(q_mul_s(q_mul_s(gp1, gp1), q_mul_s(m, m)), k);
    let t2 = q_mul_s(4 * sc, q_mul_s(k - sc, q_mul_s(g, k) + sc));
    let num = t1k - t2;
    let d1 = q_mul_s(g, k) + q_mul_s(g, k) - (g - sc);
    let d2 = q_mul_s(g - sc, k) + 2 * sc;
    q_div_s(num, q_mul_s(d1, d2))
}

/// The Mach number immediately behind the shock system: the square root of
/// the closed form `downstream_mach_sq_s`.
pub open spec fn downstream_mach_s(k: int, m: int, g: int) -> int {
    sqrt_s(downstream_mach_sq_s(k, m, g) * (SCALE as int))
}

/// Exactly when every step of the squared-Mach closed form is in range and
/// the final denominator is nonzero.
pub open spec fn downstream_mach_chain_ok(k: int, m: int, g: int) -> bool {
    let sc = SCALE as int;
    let gp1 = g + sc;
    let gp1sq = q_mul_s(gp1, gp1);
    let msq = q_mul_s(m, m);
    let t1 = q_mul_s(gp1sq, msq);
    let t1k = q_mul_s(t1, k);
    let km1 = k - sc;
    let gk = q_mul_s(g, k);
    let gk1 = gk + sc;
    let t2a = q_mul_s(km1, gk1);
    let t2 = q_mul_s(4 * sc, t2a);
    let num = t1k - t2;
    let gm1 = g - sc;
    let gk2 = gk + gk;
    let d1 = gk2 - gm1;
    let d2a = q_mul_s(gm1, k);
    let d2 = d2a + 2 * sc;
    let den = q_mul_s(d1, d2);
    &&& fits(gp1)
    &&& fits(gp1sq)
    &&& fits(msq)
    &&& fits(t1)
    &&& fits(t1k)
    &&& fits(km1)
    &&& fits(gk)
    &&& fits(gk1)
    &&& fits(t2a)
    &&& fits(t2)
    &&& fits(num)
    &&& fits(gm1)
    &&& fits(gk2)
    &&& fits(d1)
    &&& fits(d2a)
    &&& fits(d2)
    &&& fits(den)
    &&& den != 0
    &&& fits(q_div_s(num, den))
}

/// Exactly when the downstream Mach number is well defined: the closed form
/// stays in range and is nonnegative (a negative form means no physical
/// downstream state exists for these inputs).
pub open spec fn downstream_mach_ok(k: int, m: int, g: int) -> bool {
    downstream_mach_chain_ok(k, m, g) && downstream_mach_sq_s(k, m, g) >= 0
}

/// Mach number immediately behind the shock, as a function of shock strength
/// and upstream Mach number; it is what the design's second root solve
/// inverts. The closed form gives the squared Mach number; its square root
/// is returned. A closed form that leaves the range is `MathError`, exactly;
/// a negative closed form (no physical downstream state) is `DomainError`,
/// exactly.
pub fn calc_downstream_mach(k_squared: Fx, upstream_mach: Fx, gamma: Fx) -> (r: Result<
    Fx,
    FlowError,
>)
    ensures
        match r {
            Ok(v) => downstream_mach_ok(k_squared@, upstream_mach@, gamma@) && v@
                == downstream_mach_s(k_squared@, upstream_mach@, gamma@) && 0 <= v@,
            Err(e) => {
                &&& !downstream_mach_ok(k_squared@, upstream_mach@, gamma@)
                &&& (e == FlowError::MathError || e == FlowError::DomainError)
                &&& (e == FlowError::DomainError <==> (downstream_mach_chain_ok(
                    k_squared@,
                    upstream_mach@,
                    gamma@,
                ) && downstream_mach_sq_s(k_squared@, upstream_mach@, gamma@) < 0))
            },
        },
{
    let one = Fx { raw: SCALE };
    let two = Fx { raw: 2 * SCALE };
    let four = Fx { raw: 4 * SCALE };
    let gp1 = q_add(gamma, one)?;
    let gp1sq = q_mul(gp1, gp1)?;
    let msq = q_mul(upstream_mach, upstream_mach)?;
    let t1 = q_mul(gp1sq, msq)?;
    let t1k = q_mul(t1, k_squared)?;
    let km1 = q_sub(k_squared, one)?;
    let gk = q_mul(gamma, k_squared)?;
    let gk1 = q_add(gk, one)?;
    let t2a = q_mul(km1, gk1)?;
    let t2 = q_mul(four, t2a)?;
    let num = q_sub(t1k, t2)?;
    let gm1 = q_sub(gamma, one)?;
    let gk2 = q_add(gk, gk)?;
    let d1 = q_sub(gk2, gm1)?;
    let d2a = q_mul(gm1, k_squared)?;
    let d2 = q_add(d2a, two)?;
    let den = q_mul(d1, d2)?;
    let sq = q_div(num, den)?;
    match q_sqrt(sq) {
        Ok(v) => {
            proof {
                lemma_sqrt_s_is(sq@ * (SCALE as int), v@);
            }
            Ok(v)
        },
        Err(e) => Err(e),
    }
}

// ---------------------------------------------------------------------------
// Flow deflection angle.
// ---------------------------------------------------------------------------

/// The flow deflection angle across an oblique shock of angle `b`:
/// atan(2 cot(b) (M^2 sin^2 b - 1) / (M^2 (g + cos 2b) + 2)), with
/// cos 2b written as 1 - 2 sin^2 b.
pub open spec fn deflection_angle_s(m: int, b: int, g: int) -> int {
    let sc = SCALE as int;
    let s = sin_s(b);
    let c = cos_s(b);
    let cot = q_div_s(c, s);
    let ssq = q_mul_s(s, s);
    let msq = q_mul_s(m, m);
    let num = q_mul_s(msq, ssq) - sc;
    let c2b = sc - (ssq + ssq);
    let den = q_mul_s(msq, g + c2b) + 2 * sc;
    atan_s(q_mul_s(cot + cot, q_div_s(num, den)))
}

/// Exactly when the deflection angle is well defined: the shock angle is
/// degenerate at 0, pi/2 and pi (where the tangent expression breaks down),
/// and every fixed-point step must stay in range.
pub open spec fn deflection_angle_ok(m: int, b: int, g: int) -> bool {
    let sc = SCALE as int;
    let s = sin_s(b);
    let c = cos_s(b);
    let cot = q_div_s(c, s);
    let two_cot = cot + cot;
    let ssq = q_mul_s(s, s);
    let msq = q_mul_s(m, m);
    let ms = q_mul_s(msq, ssq);
    let num = ms - sc;
    let s2 = ssq + ssq;
    let c2b = sc - s2;
    let gpc = g + c2b;
    let mg = q_mul_s(msq, gpc);
    let den = mg + 2 * sc;
    let frac = q_div_s(num, den);
    let t = q_mul_s(two_cot, frac);
    &&& s != 0
    &&& c != 0
    &&& fits(cot)
    &&& fits(two_cot)
    &&& fits(ssq)
    &&& fits(msq)
    &&& fits(ms)
    &&& fits(num)
    &&& fits(s2)
    &&& fits(c2b)
    &&& fits(gpc)
    &&& fits(mg)
    &&& fits(den)
    &&& den != 0
    &&& fits(frac)
    &&& fits(t)
}

/// Flow deflection angle across an oblique shock of the given angle, always
/// inside [-pi/2, pi/2]; fails with `MathError` when the tangent expression
/// is undefined (shock angle at 0, pi/2 or pi) or a step leaves the range.
pub fn calc_deflection_angle(upstream_mach: Fx, shock_angle: Fx, gamma: Fx) -> (r: Result<
    Fx,
    FlowError,
>)
    requires
        0 <= shock_angle@ <= PI_RAW as int,
    ensures
        match r {
            Ok(v) => deflection_angle_ok(upstream_mach@, shock_angle@, gamma@) && v@
                == deflection_angle_s(upstream_mach@, shock_angle@, gamma@) && abs_i(v@)
                <= HALF_PI_RAW as int,
            Err(e) => !deflection_angle_ok(upstream_mach@, shock_angle@, gamma@) && e
                == FlowError::MathError,
        },
{
    let one = Fx { raw: SCALE };
    let two = Fx { raw: 2 * SCALE };
    let s = q_sin(shock_angle);
    let c = q_cos(shock_angle);
    if s.raw == 0 || c.raw == 0 {
        return Err(FlowError::MathError);
    }
    let cot = q_div(c, s)?;
    let two_cot = q_add(cot, cot)?;
    let ssq = q_mul(s, s)?;
    let msq = q_mul(upstream_mach, upstream_mach)?;
    let ms = q_mul(msq, ssq)?;
    let num = q_sub(ms, one)?;
    let s2 = q_add(ssq, ssq)?;
    let c2b = q_sub(one, s2)?;
    let gpc = q_add(gamma, c2b)?;
    let mg = q_mul(msq, gpc)?;
    let den = q_add(mg, two)?;
    let frac = q_div(num, den)?;
    let t = q_mul(two_cot, frac)?;
    Ok(q_atan(t))
}

} // verus!
