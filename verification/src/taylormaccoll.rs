use vstd::prelude::*;

use crate::error::FlowError;
use crate::fixed::{
    abs_i, fits, lemma_mul_sign_magnitude, mag64, q_add, q_div, q_div_s, q_half, q_mul, q_mul_s,
    q_neg, q_sqrt, q_sub, tz_div, Fx, SCALE,
};
use crate::transcend::{
    add_t, cos_s, lemma_q_mul_s_sq, lemma_sqrt_s_is, q_cos, q_sin, sin_s, sqrt_s, PI_RAW,
};
use vstd::pervasive::unreached;

verus! {

/// Raw half-width of the band around the sonic condition |v_tangential| = 1
/// that is treated as singular (about 1e-9).
pub const SONIC_EPS_RAW: i64 = 4;

/// A velocity state of the conical flow field: Mach-number components in the
/// spherical similarity frame, radial (u) and tangential (v).
#[derive(Clone, Copy, Debug, PartialEq, Eq, Structural)]
pub struct VelocityVector {
    pub radial_component: Fx,
    pub tangential_component: Fx,
}

/// The Taylor-Maccoll right-hand side at one angle: du/dtheta and dv/dtheta.
#[derive(Clone, Copy, Debug, PartialEq, Eq, Structural)]
pub struct VelocityVectorDerivative {
    pub radial_derivative: Fx,
    pub tangential_derivative: Fx,
}

/// One accepted sample of the integrated flow field and streamline.
#[derive(Clone, Copy, Debug, PartialEq, Eq, Structural)]
pub struct TaylorMaccollResult {
    pub velocity_vector: VelocityVector,
    pub radial_distance: Fx,
    pub theta: Fx,
}

/// Is the state supersonic: u^2 + v^2 >= 1, over the raw components?
pub open spec fn valid_uv_s(u: int, v: int) -> bool {
    u * u + v * v >= (SCALE as int) * (SCALE as int)
}

/// Is the tangential component within the singular band around |v| = 1?
pub open spec fn sonic_s(v: int) -> bool {
    abs_i(q_mul_s(v, v) - (SCALE as int)) <= SONIC_EPS_RAW as int
}

impl VelocityVector {
    /// The supersonic-validity predicate of this state.
    pub open spec fn valid_s(self) -> bool {
        valid_uv_s(self.radial_component@, self.tangential_component@)
    }

    /// Is the flow at this state still supersonic (Mach number at least 1)?
    /// Exact: compares u^2 + v^2 against 1 with no rounding at all.
    pub fn valid_mach_number(&self) -> (r: bool)
        ensures
            r == self.valid_s(),
    {
        let mu = mag64(self.radial_component.raw);
        let mv = mag64(self.tangential_component.raw);
        proof {
            assert((mu as int) * (mu as int) <= 0x4000_0000_0000_0000_0000_0000_0000_0000)
                by (nonlinear_arith)
                requires
                    mu <= 0x8000_0000_0000_0000u64,
            ;
            assert((mv as int) * (mv as int) <= 0x4000_0000_0000_0000_0000_0000_0000_0000)
                by (nonlinear_arith)
                requires
                    mv <= 0x8000_0000_0000_0000u64,
            ;
            lemma_mul_sign_magnitude(self.radial_component@, self.radial_component@);
            lemma_mul_sign_magnitude(self.tangential_component@, self.tangential_component@);
        }
        let su: u128 = (mu as u128) * (mu as u128);
        let sv: u128 = (mv as u128) * (mv as u128);
        su + sv >= 0x1_0000_0000_0000_0000u128
    }

    /// Does computing the Mach number stay in range?
    pub open spec fn mach_ok_s(self) -> bool {
        let uu = q_mul_s(self.radial_component@, self.radial_component@);
        let vv = q_mul_s(self.tangential_component@, self.tangential_component@);
        fits(uu) && fits(vv) && fits(uu + vv)
    }

    /// The Mach number of this state, sqrt(u^2 + v^2), rounded down to the
    /// grid; `MathError` exactly when a square leaves the range.
    pub fn get_mach_number(&self) -> (r: Result<Fx, FlowError>)
        ensures
            match r {
                Ok(m) => self.mach_ok_s() && m@ == sqrt_s(
                    (q_mul_s(self.radial_component@, self.radial_component@) + q_mul_s(
                        self.tangential_component@,
                        self.tangential_component@,
                    )) * (SCALE as int),
                ),
                Err(e) => !self.mach_ok_s() && e == FlowError::MathError,
            },
    {
        let uu = q_mul(self.radial_component, self.radial_component)?;
        let vv = q_mul(self.tangential_component, self.tangential_component)?;
        let s = q_add(uu, vv)?;
        proof {
            lemma_q_mul_s_sq(self.radial_component@);
            lemma_q_mul_s_sq(self.tangential_component@);
        }
        match q_sqrt(s) {
            Ok(m) => {
                proof {
                    lemma_sqrt_s_is(s@ * (SCALE as int), m@);
                }
                Ok(m)
            },
            Err(_) => unreached(),
        }
    }
}

// ---------------------------------------------------------------------------
// The Taylor-Maccoll right-hand side.
// ---------------------------------------------------------------------------

/// Cotangent over the trig approximants.
pub open spec fn cot_s(th: int) -> int {
    q_div_s(cos_s(th), sin_s(th))
}

/// The shared factor (u + v cot(theta)) / (v^2 - 1) of both derivative
/// components.
pub open spec fn tm_ratio_s(u: int, v: int, th: int) -> int {
    q_div_s(u + q_mul_s(v, cot_s(th)), q_mul_s(v, v) - (SCALE as int))
}

/// du/dtheta = v + ((g-1)/2 u v) (u + v cot(theta)) / (v^2 - 1).
pub open spec fn tm_du_s(u: int, v: int, th: int, g: int) -> int {
    v + q_mul_s(q_mul_s(tz_div(g - (SCALE as int), 2), q_mul_s(u, v)), tm_ratio_s(u, v, th))
}

/// dv/dtheta = -u + (1 + (g-1)/2 v^2) (u + v cot(theta)) / (v^2 - 1).
pub open spec fn tm_dv_s(u: int, v: int, th: int, g: int) -> int {
    -u + q_mul_s(
        (SCALE as int) + q_mul_s(tz_div(g - (SCALE as int), 2), q_mul_s(v, v)),
        tm_ratio_s(u, v, th),
    )
}

/// Exactly when the Taylor-Maccoll right-hand side is well defined at this
/// state: supersonic, away from the sonic band, sin(theta) nonzero, and every
/// fixed-point step in range.
pub open spec fn tm_ok_s(u: int, v: int, th: int, g: int) -> bool {
    let sc = SCALE as int;
    let vv = q_mul_s(v, v);
    let vm1 = vv - sc;
    let s = sin_s(th);
    let c = cos_s(th);
    let cot = q_div_s(c, s);
    let vcot = q_mul_s(v, cot);
    let upv = u + vcot;
    let ratio = q_div_s(upv, vm1);
    let gm1 = g - sc;
    let gh = tz_div(gm1, 2);
    let uv = q_mul_s(u, v);
    let guv = q_mul_s(gh, uv);
    let dut = q_mul_s(guv, ratio);
    let vv2 = q_mul_s(gh, vv);
    let onep = sc + vv2;
    let dvt = q_mul_s(onep, ratio);
    &&& valid_uv_s(u, v)
    &&& fits(vv)
    &&& fits(vm1)
    &&& !sonic_s(v)
    &&& s != 0
    &&& fits(cot)
    &&& fits(vcot)
    &&& fits(upv)
    &&& fits(ratio)
    &&& fits(gm1)
    &&& fits(uv)
    &&& fits(guv)
    &&& fits(dut)
    &&& fits(v + dut)
    &&& fits(vv2)
    &&& fits(onep)
    &&& fits(dvt)
    &&& fits(-u)
    &&& fits(-u + dvt)
}

/// The Taylor-Maccoll similarity ODE right-hand side. Fails with
/// `InvalidMachNumber` exactly when the state is subsonic or within the
/// sonic band, and with `MathError` when theta is degenerate on the grid or
/// a step leaves the range. On success it returns exactly `tm_du_s` and
/// `tm_dv_s`.
pub fn taylor_maccoll(velocity_vector: &VelocityVector, theta: Fx, gamma: Fx) -> (r: Result<
    VelocityVectorDerivative,
    FlowError,
>)
    requires
        0 <= theta@ <= PI_RAW as int,
    ensures
        match r {
            Ok(d) => {
                &&& tm_ok_s(
                    velocity_vector.radial_component@,
                    velocity_vector.tangential_component@,
                    theta@,
                    gamma@,
                )
                &&& d.radial_derivative@ == tm_du_s(
                    velocity_vector.radial_component@,
                    velocity_vector.tangential_component@,
                    theta@,
                    gamma@,
                )
                &&& d.tangential_derivative@ == tm_dv_s(
                    velocity_vector.radial_component@,
                    velocity_vector.tangential_component@,
                    theta@,
                    gamma@,
                )
            },
            Err(e) => {
                &&& !tm_ok_s(
                    velocity_vector.radial_component@,
                    velocity_vector.tangential_component@,
                    theta@,
                    gamma@,
                )
                &&& (e == FlowError::InvalidMachNumber || e == FlowError::MathError)
                &&& (e == FlowError::InvalidMachNumber <==> (!velocity_vector.valid_s() || (fits(
                    q_mul_s(
                        velocity_vector.tangential_component@,
                        velocity_vector.tangential_component@,
                    ),
                ) && sonic_s(velocity_vector.tangential_component@))))
            },
        },
{
    let u = velocity_vector.radial_component;
    let v = velocity_vector.tangential_component;
    if !velocity_vector.valid_mach_number() {
        return Err(FlowError::InvalidMachNumber);
    }
    let one = Fx { raw: SCALE };
    let vv = q_mul(v, v)?;
    proof {
        lemma_q_mul_s_sq(v@);
    }
    let vm1 = q_sub(vv, one)?;
    if -SONIC_EPS_RAW <= vm1.raw && vm1.raw <= SONIC_EPS_RAW {
        return Err(FlowError::InvalidMachNumber);
    }
    let s = q_sin(theta);
    let c = q_cos(theta);
    if s.raw == 0 {
        return Err(FlowError::MathError);
    }
    let cot = q_div(c, s)?;
    let vcot = q_mul(v, cot)?;
    let upv = q_add(u, vcot)?;
    let ratio = q_div(upv, vm1)?;
    let gm1 = q_sub(gamma, one)?;
    let gh = q_half(gm1);
    let uv = q_mul(u, v)?;
    let guv = q_mul(gh, uv)?;
    let dut = q_mul(guv, ratio)?;
    let u_deriv = q_add(v, dut)?;
    let vv2 = q_mul(gh, vv)?;
    let onep = q_add(one, vv2)?;
    let dvt = q_mul(onep, ratio)?;
    let nu = q_neg(u)?;
    let v_deriv = q_add(nu, dvt)?;
    Ok(VelocityVectorDerivative { radial_derivative: u_deriv, tangential_derivative: v_deriv })
}

// ---------------------------------------------------------------------------
// The streamline equation.
// ---------------------------------------------------------------------------

/// dr/dtheta = r u / v.
pub open spec fn sl_s(u: int, v: int, r: int) -> int {
    q_div_s(q_mul_s(r, u), v)
}

/// Exactly when the streamline rate is well defined: supersonic, a nonzero
/// tangential component, and both steps in range.
pub open spec fn sl_ok_s(u: int, v: int, r: int) -> bool {
    &&& valid_uv_s(u, v)
    &&& v != 0
    &&& fits(q_mul_s(r, u))
    &&& fits(q_div_s(q_mul_s(r, u), v))
}

/// The streamline ODE right-hand side, dr/dtheta = r u / v. Fails with
/// `InvalidMachNumber` exactly when the state is subsonic or the tangential
/// component is zero (purely radial flow, where the rate is undefined).
pub fn streamline(velocity_vector: &VelocityVector, r: Fx) -> (res: Result<Fx, FlowError>)
    ensures
        match res {
            Ok(v) => {
                &&& sl_ok_s(
                    velocity_vector.radial_component@,
                    velocity_vector.tangential_component@,
                    r@,
                )
                &&& v@ == sl_s(
                    velocity_vector.radial_component@,
                    velocity_vector.tangential_component@,
                    r@,
                )
            },
            Err(e) => {
                &&& !sl_ok_s(
                    velocity_vector.radial_component@,
                    velocity_vector.tangential_component@,
                    r@,
                )
                &&& (e == FlowError::InvalidMachNumber || e == FlowError::MathError)
                &&& (e == FlowError::InvalidMachNumber <==> (!velocity_vector.valid_s()
                    || velocity_vector.tangential_component@ == 0))
            },
        },
{
    if !velocity_vector.valid_mach_number() {
        return Err(FlowError::InvalidMachNumber);
    }
    if velocity_vector.tangential_component.raw == 0 {
        return Err(FlowError::InvalidMachNumber);
    }
    let ru = q_mul(r, velocity_vector.radial_component)?;
    q_div(ru, velocity_vector.tangential_component)
}

// ---------------------------------------------------------------------------
// Fixed-step fourth-order Runge-Kutta integration with cone-surface
// detection.
// ---------------------------------------------------------------------------

/// One fourth-order Runge-Kutta step of the joint system (u, v, r) at angle
/// th with step h: the classic four stage evaluations at th, th + h/2,
/// th + h/2 and th + h, shared by the velocity and streamline equations, and
/// the weighted update y + h/6 (k1 + 2 k2 + 2 k3 + k4). The value is the
/// exact fixed-point evaluation; a step whose stages are not all well defined
/// fails in the executable integrator.
#[verifier::opaque]
pub open spec fn rk4_next_s(u: int, v: int, r: int, th: int, h: int, g: int) -> (
    int,
    int,
    int,
    int,
) {
    let h2 = tz_div(h, 2);
    let k1u = tm_du_s(u, v, th, g);
    let k1v = tm_dv_s(u, v, th, g);
    let s1 = sl_s(u, v, r);
    let u2 = u + q_mul_s(h2, k1u);
    let v2 = v + q_mul_s(h2, k1v);
    let r2 = r + q_mul_s(h2, s1);
    let th2 = th + h2;
    let k2u = tm_du_s(u2, v2, th2, g);
    let k2v = tm_dv_s(u2, v2, th2, g);
    let s2 = sl_s(u2, v2, r2);
    let u3 = u + q_mul_s(h2, k2u);
    let v3 = v + q_mul_s(h2, k2v);
    let r3 = r + q_mul_s(h2, s2);
    let k3u = tm_du_s(u3, v3, th2, g);
    let k3v = tm_dv_s(u3, v3, th2, g);
    let s3 = sl_s(u3, v3, r3);
    let u4 = u + q_mul_s(h, k3u);
    let v4 = v + q_mul_s(h, k3v);
    let r4 = r + q_mul_s(h, s3);
    let th4 = th + h;
    let k4u = tm_du_s(u4, v4, th4, g);
    let k4v = tm_dv_s(u4, v4, th4, g);
    let s4 = sl_s(u4, v4, r4);
    let h6 = q_div_s(h, 6 * (SCALE as int));
    let un = u + q_mul_s(h6, k1u + k2u + k2u + k3u + k3u + k4u);
    let vn = v + q_mul_s(h6, k1v + k2v + k2v + k3v + k3v + k4v);
    let rn = r + q_mul_s(h6, s1 + s2 + s2 + s3 + s3 + s4);
    (un, vn, rn, th4)
}

/// The state after `n` Runge-Kutta steps from the given initial state.
pub open spec fn rk4_traj_s(
    u0: int,
    v0: int,
    r0: int,
    th0: int,
    h: int,
    g: int,
    n: nat,
) -> (int, int, int, int)
    decreases n,
{
    if n == 0 {
        (u0, v0, r0, th0)
    } else {
        let p = rk4_traj_s(u0, v0, r0, th0, h, g, (n - 1) as nat);
        rk4_next_s(p.0, p.1, p.2, p.3, h, g)
    }
}

/// Has the tangential velocity changed sign between two consecutive accepted
/// steps (the cone surface has been reached)?
pub open spec fn crossing_s(a: int, b: int) -> bool {
    (a < 0 && b >= 0) || (a > 0 && b <= 0)
}

/// Exactly when one Runge-Kutta step is well defined from this state: the
/// four stage evaluations of both equations are well defined and every piece
/// of the combining arithmetic stays in range. The conjunction mirrors the
/// executable step operation for operation.
#[verifier::opaque]
pub open spec fn rk4_step_ok_s(u: int, v: int, r: int, th: int, h: int, g: int) -> bool {
    let sc = SCALE as int;
    let h2 = tz_div(h, 2);
    let th2 = th + h2;
    let th4 = th + h;
    let h6 = q_div_s(h, 6 * sc);
    let k1u = tm_du_s(u, v, th, g);
    let k1v = tm_dv_s(u, v, th, g);
    let s1 = sl_s(u, v, r);
    let u2 = u + q_mul_s(h2, k1u);
    let v2 = v + q_mul_s(h2, k1v);
    let r2 = r + q_mul_s(h2, s1);
    let k2u = tm_du_s(u2, v2, th2, g);
    let k2v = tm_dv_s(u2, v2, th2, g);
    let s2 = sl_s(u2, v2, r2);
    let u3 = u + q_mul_s(h2, k2u);
    let v3 = v + q_mul_s(h2, k2v);
    let r3 = r + q_mul_s(h2, s2);
    let k3u = tm_du_s(u3, v3, th2, g);
    let k3v = tm_dv_s(u3, v3, th2, g);
    let s3 = sl_s(u3, v3, r3);
    let u4 = u + q_mul_s(h, k3u);
    let v4 = v + q_mul_s(h, k3v);
    let r4 = r + q_mul_s(h, s3);
    let k4u = tm_du_s(u4, v4, th4, g);
    let k4v = tm_dv_s(u4, v4, th4, g);
    let s4 = sl_s(u4, v4, r4);
    let sumu = k1u + k2u + k2u + k3u + k3u + k4u;
    let sumv = k1v + k2v + k2v + k3v + k3v + k4v;
    let sumr = s1 + s2 + s2 + s3 + s3 + s4;
    &&& fits(h6)
    &&& tm_ok_s(u, v, th, g)
    &&& sl_ok_s(u, v, r)
    &&& fits(q_mul_s(h2, k1u))
    &&& fits(u2)
    &&& fits(q_mul_s(h2, k1v))
    &&& fits(v2)
    &&& fits(q_mul_s(h2, s1))
    &&& fits(r2)
    &&& tm_ok_s(u2, v2, th2, g)
    &&& sl_ok_s(u2, v2, r2)
    &&& fits(q_mul_s(h2, k2u))
    &&& fits(u3)
    &&& fits(q_mul_s(h2, k2v))
    &&& fits(v3)
    &&& fits(q_mul_s(h2, s2))
    &&& fits(r3)
    &&& tm_ok_s(u3, v3, th2, g)
    &&& sl_ok_s(u3, v3, r3)
    &&& fits(q_mul_s(h, k3u))
    &&& fits(u4)
    &&& fits(q_mul_s(h, k3v))
    &&& fits(v4)
    &&& fits(q_mul_s(h, s3))
    &&& fits(r4)
    &&& tm_ok_s(u4, v4, th4, g)
    &&& sl_ok_s(u4, v4, r4)
    &&& fits(k1u + k2u)
    &&& fits(k1u + k2u + k2u)
    &&& fits(k1u + k2u + k2u + k3u)
    &&& fits(k1u + k2u + k2u + k3u + k3u)
    &&& fits(sumu)
    &&& fits(k1v + k2v)
    &&& fits(k1v + k2v + k2v)
    &&& fits(k1v + k2v + k2v + k3v)
    &&& fits(k1v + k2v + k2v + k3v + k3v)
    &&& fits(sumv)
    &&& fits(s1 + s2)
    &&& fits(s1 + s2 + s2)
    &&& fits(s1 + s2 + s2 + s3)
    &&& fits(s1 + s2 + s2 + s3 + s3)
    &&& fits(sumr)
    &&& fits(q_mul_s(h6, sumu))
    &&& fits(u + q_mul_s(h6, sumu))
    &&& fits(q_mul_s(h6, sumv))
    &&& fits(v + q_mul_s(h6, sumv))
    &&& fits(q_mul_s(h6, sumr))
    &&& fits(r + q_mul_s(h6, sumr))
}

/// The error kind `taylor_maccoll` reports at a state where it is not well
/// defined.
pub open spec fn tm_err_s(u: int, v: int, th: int, g: int) -> FlowError {
    if !valid_uv_s(u, v) || (fits(q_mul_s(v, v)) && sonic_s(v)) {
        FlowError::InvalidMachNumber
    } else {
        FlowError::MathError
    }
}

/// The error kind `streamline` reports at a state where it is not well
/// defined.
pub open spec fn sl_err_s(u: int, v: int) -> FlowError {
    if !valid_uv_s(u, v) || v == 0 {
        FlowError::InvalidMachNumber
    } else {
        FlowError::MathError
    }
}

/// The error kind of a Runge-Kutta step that is not well defined: the kind
/// of the first stage evaluation that fails, in the order the step performs
/// them; a failure of the combining arithmetic alone is `MathError`.
#[verifier::opaque]
pub open spec fn rk4_step_err_s(u: int, v: int, r: int, th: int, h: int, g: int) -> FlowError {
    let sc = SCALE as int;
    let h2 = tz_div(h, 2);
    let th2 = th + h2;
    let th4 = th + h;
    let h6 = q_div_s(h, 6 * sc);
    let k1u = tm_du_s(u, v, th, g);
    let k1v = tm_dv_s(u, v, th, g);
    let s1 = sl_s(u, v, r);
    let u2 = u + q_mul_s(h2, k1u);
    let v2 = v + q_mul_s(h2, k1v);
    let r2 = r + q_mul_s(h2, s1);
    let k2u = tm_du_s(u2, v2, th2, g);
    let k2v = tm_dv_s(u2, v2, th2, g);
    let s2 = sl_s(u2, v2, r2);
    let u3 = u + q_mul_s(h2, k2u);
    let v3 = v + q_mul_s(h2, k2v);
    let r3 = r + q_mul_s(h2, s2);
    let k3u = tm_du_s(u3, v3, th2, g);
    let k3v = tm_dv_s(u3, v3, th2, g);
    let s3 = sl_s(u3, v3, r3);
    let u4 = u + q_mul_s(h, k3u);
    let v4 = v + q_mul_s(h, k3v);
    let r4 = r + q_mul_s(h, s3);
    if !fits(h6) {
        FlowError::MathError
    } else if !tm_ok_s(u, v, th, g) {
        tm_err_s(u, v, th, g)
    } else if !sl_ok_s(u, v, r) {
        sl_err_s(u, v)
    } else if !(fits(q_mul_s(h2, k1u)) && fits(u2) && fits(q_mul_s(h2, k1v)) && fits(v2) && fits(
        q_mul_s(h2, s1),
    ) && fits(r2)) {
        FlowError::MathError
    } else if !tm_ok_s(u2, v2, th2, g) {
        tm_err_s(u2, v2, th2, g)
    } else if !sl_ok_s(u2, v2, r2) {
        sl_err_s(u2, v2)
    } else if !(fits(q_mul_s(h2, k2u)) && fits(u3) && fits(q_mul_s(h2, k2v)) && fits(v3) && fits(
        q_mul_s(h2, s2),
    ) && fits(r3)) {
        FlowError::MathError
    } else if !tm_ok_s(u3, v3, th2, g) {
        tm_err_s(u3, v3, th2, g)
    } else if !sl_ok_s(u3, v3, r3) {
        sl_err_s(u3, v3)
    } else if !(fits(q_mul_s(h, k3u)) && fits(u4) && fits(q_mul_s(h, k3v)) && fits(v4) && fits(
        q_mul_s(h, s3),
    ) && fits(r4)) {
        FlowError::MathError
    } else if !tm_ok_s(u4, v4, th4, g) {
        tm_err_s(u4, v4, th4, g)
    } else if !sl_ok_s(u4, v4, r4) {
        sl_err_s(u4, v4)
    } else {
        FlowError::MathError
    }
}

/// Is the step leaving the i-th trajectory state well defined?
pub open spec fn step_ok_at(
    u0: int,
    v0: int,
    r0: int,
    th0: int,
    h: int,
    g: int,
    i: int,
) -> bool {
    let p = rk4_traj_s(u0, v0, r0, th0, h, g, i as nat);
    rk4_step_ok_s(p.0, p.1, p.2, p.3, h, g)
}

/// Does the tangential velocity change sign between trajectory states i-1
/// and i?
pub open spec fn crossing_at(
    u0: int,
    v0: int,
    r0: int,
    th0: int,
    h: int,
    g: int,
    i: int,
) -> bool {
    crossing_s(
        rk4_traj_s(u0, v0, r0, th0, h, g, (i - 1) as nat).1,
        rk4_traj_s(u0, v0, r0, th0, h, g, i as nat).1,
    )
}

/// What a failed integration leaves behind: some prefix of well-defined,
/// uncrossed iterates ends in a step that is not well defined.
pub open spec fn step_failure_evidence(
    u0: int,
    v0: int,
    r0: int,
    th0: int,
    h: int,
    g: int,
    steps: int,
) -> bool {
    exists|n: int|
        {
            &&& 0 <= n < steps
            &&& forall|i: int| 0 <= i < n ==> #[trigger] step_ok_at(u0, v0, r0, th0, h, g, i)
            &&& forall|i: int|
                1 <= i <= n ==> !(#[trigger] crossing_at(u0, v0, r0, th0, h, g, i))
            &&& !(#[trigger] step_ok_at(u0, v0, r0, th0, h, g, n))
        }
}

/// Does the stored sample hold exactly this (u, v, r, theta) state?
pub open spec fn sample_matches(s: TaylorMaccollResult, t: (int, int, int, int)) -> bool {
    &&& s.velocity_vector.radial_component@ == t.0
    &&& s.velocity_vector.tangential_component@ == t.1
    &&& s.radial_distance@ == t.2
    &&& s.theta@ == t.3
}

/// What a successful integration returns: every sample is exactly the
/// corresponding Runge-Kutta iterate, every accepted step was well defined,
/// the final pair of samples brackets the first sign change of the
/// tangential velocity, and no earlier pair crosses.
pub open spec fn trajectory_result(
    res: Seq<TaylorMaccollResult>,
    u0: int,
    v0: int,
    r0: int,
    th0: int,
    h: int,
    g: int,
    steps: int,
) -> bool {
    &&& 2 <= res.len() <= steps + 1
    &&& forall|i: int|
        0 <= i < res.len() ==> sample_matches(
            #[trigger] res[i],
            rk4_traj_s(u0, v0, r0, th0, h, g, i as nat),
        )
    &&& forall|i: int| 0 <= i < res.len() - 1 ==> #[trigger] step_ok_at(u0, v0, r0, th0, h, g, i)
    &&& crossing_s(
        res[res.len() - 2].velocity_vector.tangential_component@,
        res[res.len() - 1].velocity_vector.tangential_component@,
    )
    &&& forall|i: int|
        1 <= i < res.len() - 1 ==> !(#[trigger] crossing_at(u0, v0, r0, th0, h, g, i))
}

/// The error kind of the step leaving the i-th trajectory state.
pub open spec fn step_err_at(
    u0: int,
    v0: int,
    r0: int,
    th0: int,
    h: int,
    g: int,
    i: int,
) -> FlowError {
    let p = rk4_traj_s(u0, v0, r0, th0, h, g, i as nat);
    rk4_step_err_s(p.0, p.1, p.2, p.3, h, g)
}

/// As `step_failure_evidence`, and the reported error is exactly the kind of
/// the first stage condition that fails at the failing step.
pub open spec fn step_failure_cause(
    e: FlowError,
    u0: int,
    v0: int,
    r0: int,
    th0: int,
    h: int,
    g: int,
    steps: int,
) -> bool {
    exists|n: int|
        {
            &&& 0 <= n < steps
            &&& forall|i: int| 0 <= i < n ==> #[trigger] step_ok_at(u0, v0, r0, th0, h, g, i)
            &&& forall|i: int|
                1 <= i <= n ==> !(#[trigger] crossing_at(u0, v0, r0, th0, h, g, i))
            &&& !(#[trigger] step_ok_at(u0, v0, r0, th0, h, g, n))
            &&& e == step_err_at(u0, v0, r0, th0, h, g, n)
        }
}

/// The fixed step (final - initial) / steps, rounded toward zero.
fn step_size(a: Fx, b: Fx, n: u32) -> (h: Fx)
    requires
        1 <= n,
        0 <= a@ <= PI_RAW as int,
        0 <= b@ <= PI_RAW as int,
    ensures
        h@ == tz_div(b@ - a@, n as int),
{
    let diff: i64 = b.raw - a.raw;
    if diff >= 0 {
        Fx { raw: ((diff as u64) / (n as u64)) as i64 }
    } else {
        Fx { raw: -((((-(diff as i128)) as u64) / (n as u64)) as i64) }
    }
}

proof fn lemma_step_range(th0: int, fin: int, steps: int, n: int)
    requires
        1 <= steps,
        0 <= n <= steps,
        0 <= th0 <= PI_RAW as int,
        0 <= fin <= PI_RAW as int,
    ensures
        0 <= th0 + n * tz_div(fin - th0, steps),
        th0 + n * tz_div(fin - th0, steps) <= PI_RAW as int,
{
    let d = fin - th0;
    let h = tz_div(d, steps);
    if d >= 0 {
        assert(0 <= n * h <= d) by (nonlinear_arith)
            requires
                0 <= n <= steps,
                1 <= steps,
                h == d / steps,
                0 <= d,
        ;
    } else {
        assert(d <= n * h <= 0) by (nonlinear_arith)
            requires
                0 <= n <= steps,
                1 <= steps,
                h == -((-d) / steps),
                d < 0,
        ;
    }
}

proof fn lemma_next_theta(u: int, v: int, r: int, th: int, h: int, g: int)
    ensures
        rk4_next_s(u, v, r, th, h, g).3 == th + h,
{
    reveal(rk4_next_s);
}

proof fn lemma_traj_theta(u0: int, v0: int, r0: int, th0: int, h: int, g: int, n: nat)
    ensures
        rk4_traj_s(u0, v0, r0, th0, h, g, n).3 == th0 + n * h,
    decreases n,
{
    if n == 0 {
        assert((n as int) * h == 0) by (nonlinear_arith)
            requires
                n == 0,
        ;
    } else {
        lemma_traj_theta(u0, v0, r0, th0, h, g, (n - 1) as nat);
        let p = rk4_traj_s(u0, v0, r0, th0, h, g, (n - 1) as nat);
        lemma_next_theta(p.0, p.1, p.2, p.3, h, g);
        assert(th0 + ((n - 1) as int) * h + h == th0 + (n as int) * h) by (nonlinear_arith);
    }
}

/// One executable Runge-Kutta step; it succeeds exactly when the step is
/// well defined (`rk4_step_ok_s`), and then returns exactly the spec iterate
/// `rk4_next_s`.
#[verifier::rlimit(100)]
fn rk4_step(u: Fx, v: Fx, rr: Fx, th: Fx, h: Fx, gamma: Fx) -> (res: Result<
    (Fx, Fx, Fx),
    FlowError,
>)
    requires
        0 <= th@ <= PI_RAW as int,
        0 <= th@ + tz_div(h@, 2) <= PI_RAW as int,
        0 <= th@ + h@ <= PI_RAW as int,
    ensures
        match res {
            Ok(t) => {
                &&& rk4_step_ok_s(u@, v@, rr@, th@, h@, gamma@)
                &&& t.0@ == rk4_next_s(u@, v@, rr@, th@, h@, gamma@).0
                &&& t.1@ == rk4_next_s(u@, v@, rr@, th@, h@, gamma@).1
                &&& t.2@ == rk4_next_s(u@, v@, rr@, th@, h@, gamma@).2
            },
            Err(e) => {
                &&& !rk4_step_ok_s(u@, v@, rr@, th@, h@, gamma@)
                &&& (e == FlowError::InvalidMachNumber || e == FlowError::MathError)
                &&& e == rk4_step_err_s(u@, v@, rr@, th@, h@, gamma@)
            },
        },
{
    proof {
        reveal(rk4_next_s);
        reveal(rk4_step_ok_s);
        reveal(rk4_step_err_s);
    }
    let h2 = q_half(h);
    let th2 = add_t(th, h2);
    let th4 = add_t(th, h);
    let six = Fx { raw: 6 * SCALE };
    let h6 = q_div(h, six)?;
    let k1 = taylor_maccoll(&VelocityVector { radial_component: u, tangential_component: v }, th, gamma)?;
    let s1 = streamline(&VelocityVector { radial_component: u, tangential_component: v }, rr)?;
    let u2 = q_add(u, q_mul(h2, k1.radial_derivative)?)?;
    let v2 = q_add(v, q_mul(h2, k1.tangential_derivative)?)?;
    let r2 = q_add(rr, q_mul(h2, s1)?)?;
    let st2 = VelocityVector { radial_component: u2, tangential_component: v2 };
    let k2 = taylor_maccoll(&st2, th2, gamma)?;
    let s2 = streamline(&st2, r2)?;
    let u3 = q_add(u, q_mul(h2, k2.radial_derivative)?)?;
    let v3 = q_add(v, q_mul(h2, k2.tangential_derivative)?)?;
    let r3 = q_add(rr, q_mul(h2, s2)?)?;
    let st3 = VelocityVector { radial_component: u3, tangential_component: v3 };
    let k3 = taylor_maccoll(&st3, th2, gamma)?;
    let s3 = streamline(&st3, r3)?;
    let u4 = q_add(u, q_mul(h, k3.radial_derivative)?)?;
    let v4 = q_add(v, q_mul(h, k3.tangential_derivative)?)?;
    let r4 = q_add(rr, q_mul(h, s3)?)?;
    let st4 = VelocityVector { radial_component: u4, tangential_component: v4 };
    let k4 = taylor_maccoll(&st4, th4, gamma)?;
    let s4 = streamline(&st4, r4)?;
    let sumu = q_add(
        q_add(
            q_add(
                q_add(q_add(k1.radial_derivative, k2.radial_derivative)?, k2.radial_derivative)?,
                k3.radial_derivative,
            )?,
            k3.radial_derivative,
        )?,
        k4.radial_derivative,
    )?;
    let sumv = q_add(
        q_add(
            q_add(
                q_add(
                    q_add(k1.tangential_derivative, k2.tangential_derivative)?,
                    k2.tangential_derivative,
                )?,
                k3.tangential_derivative,
            )?,
            k3.tangential_derivative,
        )?,
        k4.tangential_derivative,
    )?;
    let sumr = q_add(q_add(q_add(q_add(q_add(s1, s2)?, s2)?, s3)?, s3)?, s4)?;
    let un = q_add(u, q_mul(h6, sumu)?)?;
    let vn = q_add(v, q_mul(h6, sumv)?)?;
    let rn = q_add(rr, q_mul(h6, sumr)?)?;
    Ok((un, vn, rn))
}

/// Fourth-order Runge-Kutta integration of the Taylor-Maccoll and streamline
/// equations from `initial_theta` toward `final_theta`, stopping at the first
/// sign change of the tangential velocity between consecutive accepted steps
/// (the cone surface). The angle marches in the direction of `final_theta`;
/// the design solver integrates toward decreasing theta.
///
/// On success the samples are exactly the Runge-Kutta iterates up to and
/// including the first crossing, every accepted step well defined.
/// `NonConvergenceError` reports that all `steps` iterates were well
/// defined and none crossed. A failing step reports exactly the kind of its
/// first failing stage condition: a subsonic or sonic-singular stage is
/// `InvalidMachNumber`, fatally; a range failure alone is `MathError`.
/// Near the sonic band the fixed-step march takes very large derivative
/// values, so the streamline radius of the accepted samples can kink
/// locally even though the trajectory itself is pinned.
#[verifier::rlimit(100)]
pub fn solve_taylor_maccoll(
    initial_velocity_vector: VelocityVector,
    initial_theta: Fx,
    final_theta: Fx,
    initial_r: Fx,
    gamma: Fx,
    steps: u32,
) -> (r: Result<Vec<TaylorMaccollResult>, FlowError>)
    requires
        1 <= steps,
        0 <= initial_theta@ <= PI_RAW as int,
        0 <= final_theta@ <= PI_RAW as int,
    ensures
        match r {
            Ok(res) => trajectory_result(
                res@,
                initial_velocity_vector.radial_component@,
                initial_velocity_vector.tangential_component@,
                initial_r@,
                initial_theta@,
                tz_div(final_theta@ - initial_theta@, steps as int),
                gamma@,
                steps as int,
            ),
            Err(e) => {
                &&& (e == FlowError::InvalidMachNumber || e == FlowError::MathError || e
                    == FlowError::NonConvergenceError)
                &&& (e == FlowError::NonConvergenceError ==> (forall|i: int|
                    1 <= i <= steps as int ==> !(#[trigger] crossing_at(
                        initial_velocity_vector.radial_component@,
                        initial_velocity_vector.tangential_component@,
                        initial_r@,
                        initial_theta@,
                        tz_div(final_theta@ - initial_theta@, steps as int),
                        gamma@,
                        i,
                    ))) && (forall|i: int|
                    0 <= i < steps as int ==> #[trigger] step_ok_at(
                        initial_velocity_vector.radial_component@,
                        initial_velocity_vector.tangential_component@,
                        initial_r@,
                        initial_theta@,
                        tz_div(final_theta@ - initial_theta@, steps as int),
                        gamma@,
                        i,
                    )))
                &&& ((e == FlowError::InvalidMachNumber || e == FlowError::MathError)
                    ==> !initial_velocity_vector.valid_s() || step_failure_evidence(
                    initial_velocity_vector.radial_component@,
                    initial_velocity_vector.tangential_component@,
                    initial_r@,
                    initial_theta@,
                    tz_div(final_theta@ - initial_theta@, steps as int),
                    gamma@,
                    steps as int,
                ))
                &&& ((e == FlowError::InvalidMachNumber || e == FlowError::MathError) ==> (
                (!initial_velocity_vector.valid_s() && e == FlowError::InvalidMachNumber)
                    || step_failure_cause(
                    e,
                    initial_velocity_vector.radial_component@,
                    initial_velocity_vector.tangential_component@,
                    initial_r@,
                    initial_theta@,
                    tz_div(final_theta@ - initial_theta@, steps as int),
                    gamma@,
                    steps as int,
                )))
            },
        },
        !initial_velocity_vector.valid_s() ==> r == Err::<
            Vec<TaylorMaccollResult>,
            FlowError,
        >(FlowError::InvalidMachNumber),
{
    if !initial_velocity_vector.valid_mach_number() {
        return Err(FlowError::InvalidMachNumber);
    }
    let h = step_size(initial_theta, final_theta, steps);
    let ghost u0: int = initial_velocity_vector.radial_component@;
    let ghost v0: int = initial_velocity_vector.tangential_component@;
    let ghost r0: int = initial_r@;
    let ghost th0: int = initial_theta@;
    let ghost hh: int = h@;
    let ghost gg: int = gamma@;
    let mut cu = initial_velocity_vector.radial_component;
    let mut cv = initial_velocity_vector.tangential_component;
    let mut cr = initial_r;
    let mut cth = initial_theta;
    let mut results: Vec<TaylorMaccollResult> = Vec::new();
    results.push(
        TaylorMaccollResult {
            velocity_vector: VelocityVector { radial_component: cu, tangential_component: cv },
            radial_distance: cr,
            theta: cth,
        },
    );
    let mut n: u32 = 0;
    while n < steps
        invariant
            n <= steps,
            1 <= steps,
            initial_velocity_vector.valid_s(),
            hh == tz_div(final_theta@ - initial_theta@, steps as int),
            h@ == hh,
            0 <= initial_theta@ <= PI_RAW as int,
            0 <= final_theta@ <= PI_RAW as int,
            th0 == initial_theta@,
            gg == gamma@,
            u0 == initial_velocity_vector.radial_component@,
            v0 == initial_velocity_vector.tangential_component@,
            r0 == initial_r@,
            results@.len() == n + 1,
            (cu@, cv@, cr@, cth@) == rk4_traj_s(u0, v0, r0, th0, hh, gg, n as nat),
            forall|i: int|
                0 <= i <= n as int ==> sample_matches(
                    #[trigger] results@[i],
                    rk4_traj_s(u0, v0, r0, th0, hh, gg, i as nat),
                ),
            forall|i: int|
                1 <= i <= n as int ==> !(#[trigger] crossing_at(u0, v0, r0, th0, hh, gg, i)),
            forall|i: int| 0 <= i < n as int ==> #[trigger] step_ok_at(u0, v0, r0, th0, hh, gg, i),
        decreases steps - n,
    {
        proof {
            lemma_traj_theta(u0, v0, r0, th0, hh, gg, n as nat);
            lemma_step_range(th0, final_theta@, steps as int, n as int);
            lemma_step_range(th0, final_theta@, steps as int, n as int + 1);
            assert(th0 + ((n as int) + 1) * hh == cth@ + hh) by (nonlinear_arith)
                requires
                    cth@ == th0 + (n as int) * hh,
        ;
        }
        let step_res = rk4_step(cu, cv, cr, cth, h, gamma);
        match step_res {
            Err(e) => {
                proof {
                    let p = rk4_traj_s(u0, v0, r0, th0, hh, gg, n as nat);
                    assert(p.0 == cu@ && p.1 == cv@ && p.2 == cr@ && p.3 == cth@);
                    assert(!step_ok_at(u0, v0, r0, th0, hh, gg, n as int));
                    assert(e == step_err_at(u0, v0, r0, th0, hh, gg, n as int));
                    assert(step_failure_evidence(u0, v0, r0, th0, hh, gg, steps as int));
                    assert(step_failure_cause(e, u0, v0, r0, th0, hh, gg, steps as int));
                }
                return Err(e);
            },
            Ok(t) => {
                proof {
                    lemma_traj_theta(u0, v0, r0, th0, hh, gg, (n + 1) as nat);
                    let p = rk4_traj_s(u0, v0, r0, th0, hh, gg, n as nat);
                    assert(p.0 == cu@ && p.1 == cv@ && p.2 == cr@ && p.3 == cth@);
                    assert(step_ok_at(u0, v0, r0, th0, hh, gg, n as int));
                    assert(rk4_traj_s(u0, v0, r0, th0, hh, gg, (n + 1) as nat) == rk4_next_s(
                        cu@,
                        cv@,
                        cr@,
                        cth@,
                        hh,
                        gg,
                    ));
                }
                let nth = add_t(cth, h);
                let crossed: bool = (cv.raw < 0 && t.1.raw >= 0) || (cv.raw > 0 && t.1.raw <= 0);
                results.push(
                    TaylorMaccollResult {
                        velocity_vector: VelocityVector {
                            radial_component: t.0,
                            tangential_component: t.1,
                        },
                        radial_distance: t.2,
                        theta: nth,
                    },
                );
                if crossed {
                    proof {
                        lemma_traj_theta(u0, v0, r0, th0, hh, gg, (n + 1) as nat);
                        assert(sample_matches(
                            results@[n as int + 1],
                            rk4_traj_s(u0, v0, r0, th0, hh, gg, (n + 1) as nat),
                        ));
                        assert(forall|i: int|
                            0 <= i < results@.len() ==> sample_matches(
                                #[trigger] results@[i],
                                rk4_traj_s(u0, v0, r0, th0, hh, gg, i as nat),
                            ));
                    }
                    return Ok(results);
                }
                cu = t.0;
                cv = t.1;
                cr = t.2;
                cth = nth;
                n = n + 1;
            },
        }
    }
    Err(FlowError::NonConvergenceError)
}

/// The integration is deterministic: two successful runs from identical
/// inputs return identical sample sequences (bit-identical in every field).
pub proof fn lemma_integrate_deterministic(
    res1: Seq<TaylorMaccollResult>,
    res2: Seq<TaylorMaccollResult>,
    u0: int,
    v0: int,
    r0: int,
    th0: int,
    h: int,
    g: int,
    steps: int,
)
    requires
        trajectory_result(res1, u0, v0, r0, th0, h, g, steps),
        trajectory_result(res2, u0, v0, r0, th0, h, g, steps),
    ensures
        res1 == res2,
{
    if res1.len() < res2.len() {
        let j = res1.len() - 1;
        assert(sample_matches(res1[j - 1], rk4_traj_s(u0, v0, r0, th0, h, g, (j - 1) as nat)));
        assert(sample_matches(res1[j], rk4_traj_s(u0, v0, r0, th0, h, g, j as nat)));
        assert(!crossing_at(u0, v0, r0, th0, h, g, j));
        assert(false);
    }
    if res2.len() < res1.len() {
        let j = res2.len() - 1;
        assert(sample_matches(res2[j - 1], rk4_traj_s(u0, v0, r0, th0, h, g, (j - 1) as nat)));
        assert(sample_matches(res2[j], rk4_traj_s(u0, v0, r0, th0, h, g, j as nat)));
        assert(!crossing_at(u0, v0, r0, th0, h, g, j));
        assert(false);
    }
    assert forall|i: int| 0 <= i < res1.len() implies res1[i] == res2[i] by {
        assert(sample_matches(res1[i], rk4_traj_s(u0, v0, r0, th0, h, g, i as nat)));
        assert(sample_matches(res2[i], rk4_traj_s(u0, v0, r0, th0, h, g, i as nat)));
    }
    assert(res1 =~= res2);
}

} // verus!
