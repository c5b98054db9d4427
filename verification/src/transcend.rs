use vstd::prelude::*;

use vstd::arithmetic::power2::{
    pow2, lemma2_to64, lemma2_to64_rest, lemma_pow2_strictly_increases, lemma_pow2_unfold,
};
use vstd::pervasive::unreached;

use crate::error::FlowError;
use crate::fixed::{
    abs_i, fits, lemma_mul_le, lemma_mul_sign_magnitude, q_add, q_div, q_div_s, q_mul, q_mul_s,
    q_sqrt, q_sub, tz_div, Fx, RAW_MAX, SCALE,
};
use vstd::arithmetic::div_mod::{lemma_basic_div, lemma_fundamental_div_mod, lemma_mod_bound};

verus! {

// ---------------------------------------------------------------------------
// Raw Q32.32 constants: round(v * 2^32) for the named real value v.
// ---------------------------------------------------------------------------

/// pi.
pub const PI_RAW: i64 = 13493037705;

/// pi / 2.
pub const HALF_PI_RAW: i64 = 6746518852;

/// pi / 4.
pub const QUARTER_PI_RAW: i64 = 3373259426;

/// ln 2.
pub const LN2_RAW: i64 = 2977044472;

pub const INV_2: i64 = 2147483648;

pub const INV_6: i64 = 715827883;

pub const INV_24: i64 = 178956971;

pub const INV_120: i64 = 35791394;

pub const INV_720: i64 = 5965232;

pub const INV_5040: i64 = 852176;

pub const INV_40320: i64 = 106522;

pub const INV_362880: i64 = 11836;

pub const INV_3628800: i64 = 1184;

pub const INV_39916800: i64 = 108;

pub const INV_479001600: i64 = 9;

pub const ODD_3: i64 = 1431655765;

pub const ODD_5: i64 = 858993459;

pub const ODD_7: i64 = 613566757;

pub const ODD_9: i64 = 477218588;

pub const ODD_11: i64 = 390451572;

pub const ODD_13: i64 = 330382100;

pub const ODD_15: i64 = 286331153;

pub const ODD_17: i64 = 252645135;

pub const ODD_19: i64 = 226050910;

pub const ODD_21: i64 = 204522252;

// ---------------------------------------------------------------------------
// Bounded total wrappers over the checked fixed-point operations.
// ---------------------------------------------------------------------------

proof fn lemma_q_mul_s_bound(a: int, b: int, ba: int, bb: int)
    requires
        abs_i(a) <= ba,
        abs_i(b) <= bb,
    ensures
        abs_i(q_mul_s(a, b)) * (SCALE as int) <= ba * bb,
{
    assert(abs_i(q_mul_s(a, b)) * (SCALE as int) <= ba * bb) by (nonlinear_arith)
        requires
            abs_i(a) <= ba,
            abs_i(b) <= bb,
            q_mul_s(a, b) == tz_div(a * b, SCALE as int),
            SCALE == 0x1_0000_0000i64,
            forall|n: int, d: int|
                d > 0 ==> #[trigger] tz_div(n, d) == if n >= 0 {
                    n / d
                } else {
                    -((-n) / d)
                },
    ;
}

proof fn lemma_div_le(n: int, d: int, c: int)
    requires
        0 <= n,
        0 < d,
        0 <= c,
        n <= d * c,
    ensures
        n / d <= c,
{
    assert(n / d <= c) by (nonlinear_arith)
        requires
            0 <= n,
            0 < d,
            0 <= c,
            n <= d * c,
    ;
}

/// Product whose magnitude is known, by the ghost bounds, to stay in range;
/// returns the exact rounded product.
pub(crate) fn mul_b(a: Fx, b: Fx, Ghost(ba): Ghost<int>, Ghost(bb): Ghost<int>) -> (r: Fx)
    requires
        abs_i(a@) <= ba,
        abs_i(b@) <= bb,
        ba * bb <= (RAW_MAX as int) * (SCALE as int),
    ensures
        r@ == q_mul_s(a@, b@),
        abs_i(r@) * (SCALE as int) <= ba * bb,
{
    proof {
        lemma_q_mul_s_bound(a@, b@, ba, bb);
        assert(fits(q_mul_s(a@, b@))) by (nonlinear_arith)
            requires
                abs_i(q_mul_s(a@, b@)) * (SCALE as int) <= ba * bb,
                ba * bb <= (RAW_MAX as int) * (SCALE as int),
                SCALE == 0x1_0000_0000i64,
                fits(q_mul_s(a@, b@)) == (-(RAW_MAX as int) <= q_mul_s(a@, b@) <= RAW_MAX as int),
                RAW_MAX == 0x7fff_ffff_ffff_ffffi64,
                forall|n: int| #[trigger] abs_i(n) == if n >= 0 {
                    n
                } else {
                    -n
                },
        ;
    }
    match q_mul(a, b) {
        Ok(v) => v,
        Err(_) => unreached(),
    }
}

/// Sum already known to stay in range.
pub(crate) fn add_t(a: Fx, b: Fx) -> (r: Fx)
    requires
        fits(a@ + b@),
    ensures
        r@ == a@ + b@,
{
    match q_add(a, b) {
        Ok(v) => v,
        Err(_) => unreached(),
    }
}

/// Difference already known to stay in range.
pub(crate) fn sub_t(a: Fx, b: Fx) -> (r: Fx)
    requires
        fits(a@ - b@),
    ensures
        r@ == a@ - b@,
{
    match q_sub(a, b) {
        Ok(v) => v,
        Err(_) => unreached(),
    }
}

/// Quotient with a nonzero divisor and a ghost magnitude bound `c` on the
/// result; returns the exact rounded quotient.
pub(crate) fn div_t(a: Fx, b: Fx, Ghost(c): Ghost<int>) -> (r: Fx)
    requires
        b@ != 0,
        0 <= c <= RAW_MAX as int,
        abs_i(a@) * (SCALE as int) <= abs_i(b@) * c,
    ensures
        r@ == q_div_s(a@, b@),
        abs_i(r@) <= c,
{
    proof {
        lemma_div_le(abs_i(a@) * (SCALE as int), abs_i(b@), c);
        assert(abs_i(q_div_s(a@, b@)) == (abs_i(a@) * (SCALE as int)) / abs_i(b@));
    }
    match q_div(a, b) {
        Ok(v) => v,
        Err(_) => unreached(),
    }
}

// ---------------------------------------------------------------------------
// Floor square root as a spec-level value.
// ---------------------------------------------------------------------------

/// Is `r` the floor square root of `n`?
pub open spec fn is_sqrt(r: int, n: int) -> bool {
    0 <= r && r * r <= n < (r + 1) * (r + 1)
}

/// The floor square root of a nonnegative integer, as the unique `r` with
/// r^2 <= n < (r + 1)^2.
pub open spec fn sqrt_s(n: int) -> int {
    choose|r: int| is_sqrt(r, n)
}

pub(crate) proof fn lemma_sqrt_s_is(n: int, r: int)
    requires
        0 <= r,
        r * r <= n,
        n < (r + 1) * (r + 1),
    ensures
        sqrt_s(n) == r,
{
    assert(is_sqrt(r, n));
    let w = sqrt_s(n);
    assert(is_sqrt(w, n));
    assert(w == r) by (nonlinear_arith)
        requires
            0 <= r,
            r * r <= n < (r + 1) * (r + 1),
            0 <= w,
            w * w <= n < (w + 1) * (w + 1),
    ;
}

/// Total square root for a nonnegative argument, pinned to `sqrt_s`.
pub(crate) fn sqrt_t(x: Fx) -> (r: Fx)
    requires
        x@ >= 0,
    ensures
        r@ == sqrt_s(x@ * (SCALE as int)),
        0 <= r@,
        r@ * r@ <= x@ * (SCALE as int) < (r@ + 1) * (r@ + 1),
{
    let v = match q_sqrt(x) {
        Ok(v) => v,
        Err(_) => unreached(),
    };
    proof {
        lemma_sqrt_s_is(x@ * (SCALE as int), v@);
    }
    v
}

// ---------------------------------------------------------------------------
// Sine and cosine on [0, pi].
// ---------------------------------------------------------------------------

/// The cosine polynomial on [-pi/4, pi/4]: the degree-12 even Taylor
/// polynomial, evaluated by Horner steps over the exact rounded fixed-point
/// operations.
pub open spec fn cos_poly_s(x: int) -> int {
    let z = q_mul_s(x, x);
    let a5 = (INV_3628800 as int) - q_mul_s(z, INV_479001600 as int);
    let a4 = (INV_40320 as int) - q_mul_s(z, a5);
    let a3 = (INV_720 as int) - q_mul_s(z, a4);
    let a2 = (INV_24 as int) - q_mul_s(z, a3);
    let a1 = (INV_2 as int) - q_mul_s(z, a2);
    (SCALE as int) - q_mul_s(z, a1)
}

/// The sine polynomial on [-pi/4, pi/4]: the degree-11 odd Taylor
/// polynomial.
pub open spec fn sin_poly_s(x: int) -> int {
    let z = q_mul_s(x, x);
    let b5 = (INV_362880 as int) - q_mul_s(z, INV_39916800 as int);
    let b4 = (INV_5040 as int) - q_mul_s(z, b5);
    let b3 = (INV_120 as int) - q_mul_s(z, b4);
    let b2 = (INV_6 as int) - q_mul_s(z, b3);
    let b1 = (SCALE as int) - q_mul_s(z, b2);
    q_mul_s(x, b1)
}

/// Sine on [0, pi/2], choosing the better-conditioned octant polynomial:
/// sin(x) = cos(pi/2 - x) above pi/4.
pub open spec fn sin_half_s(x: int) -> int {
    if x > QUARTER_PI_RAW as int {
        cos_poly_s((HALF_PI_RAW as int) - x)
    } else {
        sin_poly_s(x)
    }
}

/// Cosine on [0, pi/2], by the same octant split.
pub open spec fn cos_half_s(x: int) -> int {
    if x > QUARTER_PI_RAW as int {
        sin_poly_s((HALF_PI_RAW as int) - x)
    } else {
        cos_poly_s(x)
    }
}

/// Sine on [0, pi], by reflection about pi/2.
pub open spec fn sin_s(x: int) -> int {
    if x > HALF_PI_RAW as int {
        sin_half_s((PI_RAW as int) - x)
    } else {
        sin_half_s(x)
    }
}

/// Cosine on [0, pi], by reflection about pi/2.
pub open spec fn cos_s(x: int) -> int {
    if x > HALF_PI_RAW as int {
        -cos_half_s((PI_RAW as int) - x)
    } else {
        cos_half_s(x)
    }
}

fn cos_poly(x: Fx) -> (r: Fx)
    requires
        abs_i(x@) <= QUARTER_PI_RAW as int + 2,
    ensures
        r@ == cos_poly_s(x@),
        abs_i(r@) <= 0x10_0000_0000,
{
    let z = mul_b(x, x, Ghost(0xD000_0000), Ghost(0xD000_0000));
    let a5 = sub_t(
        Fx { raw: INV_3628800 },
        mul_b(z, Fx { raw: INV_479001600 }, Ghost(0xB000_0000), Ghost(16)),
    );
    let a4 = sub_t(Fx { raw: INV_40320 }, mul_b(z, a5, Ghost(0xB000_0000), Ghost(0x10000)));
    let a3 = sub_t(Fx { raw: INV_720 }, mul_b(z, a4, Ghost(0xB000_0000), Ghost(0x100000)));
    let a2 = sub_t(Fx { raw: INV_24 }, mul_b(z, a3, Ghost(0xB000_0000), Ghost(0x1000000)));
    let a1 = sub_t(Fx { raw: INV_2 }, mul_b(z, a2, Ghost(0xB000_0000), Ghost(0x20000000)));
    sub_t(Fx { raw: SCALE }, mul_b(z, a1, Ghost(0xB000_0000), Ghost(0x1_0000_0000)))
}

fn sin_poly(x: Fx) -> (r: Fx)
    requires
        abs_i(x@) <= QUARTER_PI_RAW as int + 2,
    ensures
        r@ == sin_poly_s(x@),
        abs_i(r@) <= 0x10_0000_0000,
{
    let z = mul_b(x, x, Ghost(0xD000_0000), Ghost(0xD000_0000));
    let b5 = sub_t(
        Fx { raw: INV_362880 },
        mul_b(z, Fx { raw: INV_39916800 }, Ghost(0xB000_0000), Ghost(256)),
    );
    let b4 = sub_t(Fx { raw: INV_5040 }, mul_b(z, b5, Ghost(0xB000_0000), Ghost(0x10000)));
    let b3 = sub_t(Fx { raw: INV_120 }, mul_b(z, b4, Ghost(0xB000_0000), Ghost(0x100000)));
    let b2 = sub_t(Fx { raw: INV_6 }, mul_b(z, b3, Ghost(0xB000_0000), Ghost(0x8000000)));
    let b1 = sub_t(Fx { raw: SCALE }, mul_b(z, b2, Ghost(0xB000_0000), Ghost(0x40000000)));
    mul_b(x, b1, Ghost(0xD000_0000), Ghost(0x8_0000_0000))
}

fn sin_half(x: Fx) -> (r: Fx)
    requires
        0 <= x@ <= HALF_PI_RAW as int + 1,
    ensures
        r@ == sin_half_s(x@),
        abs_i(r@) <= 0x10_0000_0000,
{
    if x.raw > QUARTER_PI_RAW {
        cos_poly(Fx { raw: HALF_PI_RAW - x.raw })
    } else {
        sin_poly(x)
    }
}

fn cos_half(x: Fx) -> (r: Fx)
    requires
        0 <= x@ <= HALF_PI_RAW as int + 1,
    ensures
        r@ == cos_half_s(x@),
        abs_i(r@) <= 0x10_0000_0000,
{
    if x.raw > QUARTER_PI_RAW {
        sin_poly(Fx { raw: HALF_PI_RAW - x.raw })
    } else {
        cos_poly(x)
    }
}

/// Sine of an angle in [0, pi], exactly the approximant `sin_s`.
pub fn q_sin(x: Fx) -> (r: Fx)
    requires
        0 <= x@ <= PI_RAW as int,
    ensures
        r@ == sin_s(x@),
        abs_i(r@) <= 0x10_0000_0000,
{
    if x.raw > HALF_PI_RAW {
        sin_half(Fx { raw: PI_RAW - x.raw })
    } else {
        sin_half(x)
    }
}

/// Cosine of an angle in [0, pi], exactly the approximant `cos_s`.
pub fn q_cos(x: Fx) -> (r: Fx)
    requires
        0 <= x@ <= PI_RAW as int,
    ensures
        r@ == cos_s(x@),
        abs_i(r@) <= 0x10_0000_0000,
{
    if x.raw > HALF_PI_RAW {
        let v = cos_half(Fx { raw: PI_RAW - x.raw });
        Fx { raw: -v.raw }
    } else {
        cos_half(x)
    }
}

// ---------------------------------------------------------------------------
// Arctangent and arcsine.
// ---------------------------------------------------------------------------

pub(crate) proof fn lemma_q_mul_s_nonneg(a: int, b: int)
    requires
        a >= 0,
        b >= 0,
    ensures
        0 <= q_mul_s(a, b),
{
    assert(0 <= a * b) by (nonlinear_arith)
        requires
            a >= 0,
            b >= 0,
    ;
    assert(q_mul_s(a, b) == (a * b) / (SCALE as int));
    assert(0 <= (a * b) / (SCALE as int)) by (nonlinear_arith)
        requires
            0 <= a * b,
    ;
}

proof fn lemma_q_div_s_nonneg(a: int, b: int)
    requires
        a >= 0,
        b > 0,
    ensures
        0 <= q_div_s(a, b),
{
    assert(q_div_s(a, b) == (a * (SCALE as int)) / b);
    assert(0 <= a * (SCALE as int)) by (nonlinear_arith)
        requires
            a >= 0,
    ;
    assert(0 <= (a * (SCALE as int)) / b) by (nonlinear_arith)
        requires
            0 <= a * (SCALE as int),
            b > 0,
    ;
}

pub(crate) proof fn lemma_q_mul_s_sq(a: int)
    ensures
        0 <= q_mul_s(a, a),
{
    assert(0 <= a * a) by (nonlinear_arith);
    assert(q_mul_s(a, a) == (a * a) / (SCALE as int));
    assert(0 <= (a * a) / (SCALE as int)) by (nonlinear_arith)
        requires
            0 <= a * a,
    ;
}

proof fn lemma_sqrt_lb(rt: int, n: int, lo: int)
    requires
        0 <= rt,
        rt * rt <= n < (rt + 1) * (rt + 1),
        0 <= lo,
        lo * lo <= n,
    ensures
        lo <= rt,
{
    assert(lo <= rt) by (nonlinear_arith)
        requires
            0 <= rt,
            n < (rt + 1) * (rt + 1),
            0 <= lo,
            lo * lo <= n,
    ;
}

proof fn lemma_sqrt_ub(rt: int, n: int, hi: int)
    requires
        0 <= rt,
        rt * rt <= n,
        0 < hi,
        n < hi * hi,
    ensures
        rt < hi,
{
    assert(rt < hi) by (nonlinear_arith)
        requires
            0 <= rt,
            rt * rt <= n,
            0 < hi,
            n < hi * hi,
    ;
}

/// The arctangent approximant on [0, 1]: the argument is halved twice through
/// t -> t / (1 + sqrt(1 + t^2)), the degree-13 odd series is evaluated, and
/// the result is scaled back by 4.
pub open spec fn atan_unit_s(t: int) -> int {
    let s1 = sqrt_s(((SCALE as int) + q_mul_s(t, t)) * (SCALE as int));
    let t1 = q_div_s(t, (SCALE as int) + s1);
    let s2 = sqrt_s(((SCALE as int) + q_mul_s(t1, t1)) * (SCALE as int));
    let t2 = q_div_s(t1, (SCALE as int) + s2);
    let w = q_mul_s(t2, t2);
    let p5 = (ODD_11 as int) - q_mul_s(w, ODD_13 as int);
    let p4 = (ODD_9 as int) - q_mul_s(w, p5);
    let p3 = (ODD_7 as int) - q_mul_s(w, p4);
    let p2 = (ODD_5 as int) - q_mul_s(w, p3);
    let p1 = (ODD_3 as int) - q_mul_s(w, p2);
    let q = (SCALE as int) - q_mul_s(w, p1);
    4 * q_mul_s(t2, q)
}

/// Arctangent of a nonnegative scalar: arguments above 1 are inverted through
/// atan(t) = pi/2 - atan(1/t).
pub open spec fn atan_pos_s(t: int) -> int {
    if t > SCALE as int {
        (HALF_PI_RAW as int) - atan_unit_s(q_div_s(SCALE as int, t))
    } else {
        atan_unit_s(t)
    }
}

/// Arctangent of any representable scalar; odd in its argument.
pub open spec fn atan_s(t: int) -> int {
    if t < 0 {
        -atan_pos_s(-t)
    } else {
        atan_pos_s(t)
    }
}

fn atan_unit(t: Fx) -> (r: Fx)
    requires
        0 <= t@ <= SCALE as int,
    ensures
        r@ == atan_unit_s(t@),
        0 <= r@ <= 0x1_1000_0000,
{
    let one = Fx { raw: SCALE };
    let tt = mul_b(t, t, Ghost(0x1_0000_0000), Ghost(0x1_0000_0000));
    proof {
        lemma_q_mul_s_nonneg(t@, t@);
    }
    let a1 = add_t(one, tt);
    let s1 = sqrt_t(a1);
    proof {
        lemma_sqrt_lb(s1@, a1@ * (SCALE as int), SCALE as int);
        lemma_sqrt_ub(s1@, a1@ * (SCALE as int), 2 * (SCALE as int));
    }
    let d1 = add_t(one, s1);
    let t1 = div_t(t, d1, Ghost(0x8000_0000));
    proof {
        lemma_q_div_s_nonneg(t@, d1@);
    }
    let tt1 = mul_b(t1, t1, Ghost(0x8000_0000), Ghost(0x8000_0000));
    proof {
        lemma_q_mul_s_nonneg(t1@, t1@);
    }
    let a2 = add_t(one, tt1);
    let s2 = sqrt_t(a2);
    proof {
        lemma_sqrt_lb(s2@, a2@ * (SCALE as int), SCALE as int);
        lemma_sqrt_ub(s2@, a2@ * (SCALE as int), 2 * (SCALE as int));
    }
    let d2 = add_t(one, s2);
    let t2 = div_t(t1, d2, Ghost(0x4000_0000));
    proof {
        lemma_q_div_s_nonneg(t1@, d2@);
    }
    let w = mul_b(t2, t2, Ghost(0x4000_0000), Ghost(0x4000_0000));
    proof {
        lemma_q_mul_s_nonneg(t2@, t2@);
    }
    let p5 = sub_t(
        Fx { raw: ODD_11 },
        mul_b(w, Fx { raw: ODD_13 }, Ghost(0x1000_0000), Ghost(0x1_0000_0000)),
    );
    let p4 = sub_t(Fx { raw: ODD_9 }, mul_b(w, p5, Ghost(0x1000_0000), Ghost(0x1_0000_0000)));
    let p3 = sub_t(Fx { raw: ODD_7 }, mul_b(w, p4, Ghost(0x1000_0000), Ghost(0x1_0000_0000)));
    let p2 = sub_t(Fx { raw: ODD_5 }, mul_b(w, p3, Ghost(0x1000_0000), Ghost(0x1_0000_0000)));
    let p1 = sub_t(Fx { raw: ODD_3 }, mul_b(w, p2, Ghost(0x1000_0000), Ghost(0x1_0000_0000)));
    let q = sub_t(one, mul_b(w, p1, Ghost(0x1000_0000), Ghost(0x1_0000_0000)));
    let m = mul_b(t2, q, Ghost(0x4000_0000), Ghost(0x1_1000_0000));
    proof {
        lemma_q_mul_s_nonneg(t2@, q@);
    }
    Fx { raw: m.raw * 4 }
}

fn atan_pos(t: Fx) -> (r: Fx)
    requires
        0 <= t@ <= RAW_MAX as int,
    ensures
        r@ == atan_pos_s(t@),
        0 <= r@ <= HALF_PI_RAW as int,
{
    if t.raw > SCALE {
        let one = Fx { raw: SCALE };
        let iv = div_t(one, t, Ghost(0x1_0000_0000));
        proof {
            lemma_q_div_s_nonneg(SCALE as int, t@);
        }
        let au = atan_unit(iv);
        sub_t(Fx { raw: HALF_PI_RAW }, au)
    } else {
        atan_unit(t)
    }
}

/// Arctangent of any representable scalar, exactly the approximant `atan_s`;
/// the result never leaves [-pi/2, pi/2].
pub fn q_atan(t: Fx) -> (r: Fx)
    requires
        abs_i(t@) <= RAW_MAX as int,
    ensures
        r@ == atan_s(t@),
        abs_i(r@) <= HALF_PI_RAW as int,
{
    if t.raw < 0 {
        let p = atan_pos(Fx { raw: -t.raw });
        Fx { raw: -p.raw }
    } else {
        atan_pos(t)
    }
}

/// The arcsine approximant: asin(x) = atan(x / sqrt(1 - x^2)).
pub open spec fn asin_s(x: int) -> int {
    let xx = q_mul_s(x, x);
    let s = sqrt_s(((SCALE as int) - xx) * (SCALE as int));
    atan_s(q_div_s(x, s))
}

/// Arcsine; the argument must lie strictly inside (-1, 1), else `DomainError`.
pub fn q_asin(x: Fx) -> (r: Result<Fx, FlowError>)
    ensures
        match r {
            Ok(v) => abs_i(x@) < SCALE as int && v@ == asin_s(x@) && abs_i(v@)
                <= HALF_PI_RAW as int,
            Err(e) => e == FlowError::DomainError && abs_i(x@) >= SCALE as int,
        },
{
    if x.raw >= SCALE || x.raw <= -SCALE {
        return Err(FlowError::DomainError);
    }
    let xx = mul_b(x, x, Ghost(0xffff_ffff), Ghost(0xffff_ffff));
    proof {
        lemma_q_mul_s_sq(x@);
    }
    let w = sub_t(Fx { raw: SCALE }, xx);
    let s = sqrt_t(w);
    proof {
        lemma_sqrt_lb(s@, w@ * (SCALE as int), 0x10000);
        lemma_sqrt_ub(s@, w@ * (SCALE as int), (0x1_0000_0001 as int));
    }
    let t = div_t(x, s, Ghost(0x1_0000_0000_0000));
    Ok(q_atan(t))
}

// ---------------------------------------------------------------------------
// Natural logarithm.
// ---------------------------------------------------------------------------

proof fn lemma_halve_keep(mo: int, pd: int, bound: int)
    requires
        mo >= 0,
        pd >= 0,
        mo * pd <= bound,
    ensures
        (mo / 2) * (2 * pd) <= bound,
{
    assert((mo / 2) * (2 * pd) <= mo * pd) by (nonlinear_arith)
        requires
            mo >= 0,
            pd >= 0,
    ;
}

/// Halve a raw value until it drops below 2, counting the halvings in `e`.
pub open spec fn norm_dn_s(m: int, e: int) -> (int, int)
    decreases m,
{
    if m >= 2 * (SCALE as int) {
        norm_dn_s(tz_div(m, 2), e + 1)
    } else {
        (m, e)
    }
}

/// Double a positive raw value until it reaches 1, counting down in `e`.
pub open spec fn norm_up_s(m: int, e: int) -> (int, int)
    decreases 2 * (SCALE as int) - m,
{
    if 0 < m < SCALE as int {
        norm_up_s(2 * m, e - 1)
    } else {
        (m, e)
    }
}

/// The logarithm approximant for a positive scalar: normalize to m * 2^e with
/// m in [1, 2), then ln m = 2 atanh(z) with z = (m - 1) / (m + 1) by the
/// degree-21 odd series, and ln x = e ln 2 + ln m.
pub open spec fn ln_s(x: int) -> int {
    let me0 = norm_dn_s(x, 0);
    let me = norm_up_s(me0.0, me0.1);
    let m = me.0;
    let e = me.1;
    let z = q_div_s(m - (SCALE as int), m + (SCALE as int));
    let w = q_mul_s(z, z);
    let p9 = (ODD_19 as int) + q_mul_s(w, ODD_21 as int);
    let p8 = (ODD_17 as int) + q_mul_s(w, p9);
    let p7 = (ODD_15 as int) + q_mul_s(w, p8);
    let p6 = (ODD_13 as int) + q_mul_s(w, p7);
    let p5 = (ODD_11 as int) + q_mul_s(w, p6);
    let p4 = (ODD_9 as int) + q_mul_s(w, p5);
    let p3 = (ODD_7 as int) + q_mul_s(w, p4);
    let p2 = (ODD_5 as int) + q_mul_s(w, p3);
    let p1 = (ODD_3 as int) + q_mul_s(w, p2);
    let p = (SCALE as int) + q_mul_s(w, p1);
    e * (LN2_RAW as int) + 2 * q_mul_s(z, p)
}

/// Natural logarithm; `DomainError` exactly on nonpositive arguments.
pub fn q_ln(x: Fx) -> (r: Result<Fx, FlowError>)
    ensures
        match r {
            Ok(v) => x@ > 0 && v@ == ln_s(x@) && abs_i(v@) <= 0x40_0000_0000,
            Err(e) => e == FlowError::DomainError && x@ <= 0,
        },
{
    if x.raw <= 0 {
        return Err(FlowError::DomainError);
    }
    let mut m: i64 = x.raw;
    let mut d: u32 = 0;
    proof {
        lemma2_to64();
    }
    while m >= 2 * SCALE
        invariant
            1 <= m as int,
            (m as int) <= RAW_MAX as int,
            d <= 31,
            (m as int) * pow2(d as nat) <= RAW_MAX as int,
            norm_dn_s(m as int, d as int) == norm_dn_s(x@, 0),
        decreases m,
    {
        proof {
            lemma2_to64();
            if d >= 30 {
                if d > 30 {
                    lemma_pow2_strictly_increases(30, d as nat);
                }
                lemma_mul_le(2 * (SCALE as int), pow2(30) as int, m as int, pow2(d as nat) as int);
                assert(false);
            }
            lemma_pow2_unfold(d as nat + 1);
            lemma_halve_keep(m as int, pow2(d as nat) as int, RAW_MAX as int);
        }
        m = ((m as u64) / 2) as i64;
        d = d + 1;
    }
    let ghost m_mid: int = m as int;
    let ghost d_mid: int = d as int;
    let mut u: u32 = 0;
    proof {
        lemma2_to64();
        assert(m_mid * pow2(0) == m_mid) by (nonlinear_arith)
            requires
                pow2(0) == 1,
        ;
    }
    while m < SCALE
        invariant
            1 <= m as int,
            (m as int) < 2 * (SCALE as int),
            u <= 32,
            m as int == m_mid * pow2(u as nat),
            1 <= m_mid,
            norm_up_s(m as int, d_mid - u as int) == norm_up_s(m_mid, d_mid),
        decreases 2 * (SCALE as int) - m as int,
    {
        proof {
            lemma2_to64();
            if u >= 32 {
                lemma_mul_le(1, pow2(32) as int, m_mid, pow2(u as nat) as int);
                if u > 32 {
                    lemma_pow2_strictly_increases(32, u as nat);
                    lemma_mul_le(1, pow2(32) as int, m_mid, pow2(u as nat) as int);
                }
                assert(false);
            }
            lemma_pow2_unfold(u as nat + 1);
            assert((2 * m as int) == m_mid * pow2(u as nat + 1)) by (nonlinear_arith)
                requires
                    m as int == m_mid * pow2(u as nat),
                    pow2(u as nat + 1) == 2 * pow2(u as nat),
            ;
        }
        m = m * 2;
        u = u + 1;
    }
    let e_i: i64 = d as i64 - u as i64;
    let mfx = Fx { raw: m };
    let one = Fx { raw: SCALE };
    let num = sub_t(mfx, one);
    let den = add_t(mfx, one);
    let z = div_t(num, den, Ghost(0x8000_0000));
    proof {
        lemma_q_div_s_nonneg(num@, den@);
    }
    let w = mul_b(z, z, Ghost(0x8000_0000), Ghost(0x8000_0000));
    proof {
        lemma_q_mul_s_nonneg(z@, z@);
    }
    let p9 = add_t(
        Fx { raw: ODD_19 },
        mul_b(w, Fx { raw: ODD_21 }, Ghost(0x4000_0000), Ghost(0x1_0000_0000)),
    );
    let p8 = add_t(Fx { raw: ODD_17 }, mul_b(w, p9, Ghost(0x4000_0000), Ghost(0x1_0000_0000)));
    let p7 = add_t(Fx { raw: ODD_15 }, mul_b(w, p8, Ghost(0x4000_0000), Ghost(0x1_0000_0000)));
    let p6 = add_t(Fx { raw: ODD_13 }, mul_b(w, p7, Ghost(0x4000_0000), Ghost(0x1_0000_0000)));
    let p5 = add_t(Fx { raw: ODD_11 }, mul_b(w, p6, Ghost(0x4000_0000), Ghost(0x1_0000_0000)));
    let p4 = add_t(Fx { raw: ODD_9 }, mul_b(w, p5, Ghost(0x4000_0000), Ghost(0x1_0000_0000)));
    let p3 = add_t(Fx { raw: ODD_7 }, mul_b(w, p4, Ghost(0x4000_0000), Ghost(0x1_0000_0000)));
    let p2 = add_t(Fx { raw: ODD_5 }, mul_b(w, p3, Ghost(0x4000_0000), Ghost(0x1_0000_0000)));
    let p1 = add_t(Fx { raw: ODD_3 }, mul_b(w, p2, Ghost(0x4000_0000), Ghost(0x1_0000_0000)));
    let pp = add_t(one, mul_b(w, p1, Ghost(0x4000_0000), Ghost(0x1_0000_0000)));
    let lnm = mul_b(z, pp, Ghost(0x8000_0000), Ghost(0x2_0000_0000));
    Ok(Fx { raw: e_i * LN2_RAW + lnm.raw * 2 })
}

// ---------------------------------------------------------------------------
// Exponential and power.
// ---------------------------------------------------------------------------

/// Floor division for a positive divisor (rounds toward minus infinity).
pub open spec fn floor_div_s(x: int, d: int) -> int {
    if x >= 0 {
        x / d
    } else {
        -((-x + d - 1) / d)
    }
}

/// The exponential series approximant on [0, ln 2): the degree-11 Taylor
/// polynomial by Horner steps.
pub open spec fn exp_series_s(r: int) -> int {
    let c10 = (INV_3628800 as int) + q_mul_s(r, INV_39916800 as int);
    let c9 = (INV_362880 as int) + q_mul_s(r, c10);
    let c8 = (INV_40320 as int) + q_mul_s(r, c9);
    let c7 = (INV_5040 as int) + q_mul_s(r, c8);
    let c6 = (INV_720 as int) + q_mul_s(r, c7);
    let c5 = (INV_120 as int) + q_mul_s(r, c6);
    let c4 = (INV_24 as int) + q_mul_s(r, c5);
    let c3 = (INV_6 as int) + q_mul_s(r, c4);
    let c2 = (INV_2 as int) + q_mul_s(r, c3);
    let c1 = (SCALE as int) + q_mul_s(r, c2);
    (SCALE as int) + q_mul_s(r, c1)
}

/// The binade index of exp's range reduction: floor(x / ln 2).
pub open spec fn exp_k_s(x: int) -> int {
    floor_div_s(x, LN2_RAW as int)
}

/// The remainder of exp's range reduction, in [0, ln 2).
pub open spec fn exp_r_s(x: int) -> int {
    x - exp_k_s(x) * (LN2_RAW as int)
}

/// Does the exponential leave the representable range at x?
pub open spec fn exp_oob_s(x: int) -> bool {
    let k = exp_k_s(x);
    k >= 31 || (k >= 0 && exp_series_s(exp_r_s(x)) * pow2(k as nat) > RAW_MAX as int)
}

/// The exponential approximant: exp(x) = 2^k exp(r) with r = x - k ln 2.
pub open spec fn exp_s(x: int) -> int {
    let k = exp_k_s(x);
    let p = exp_series_s(exp_r_s(x));
    if k >= 0 {
        p * pow2(k as nat)
    } else {
        tz_div(p, pow2((-k) as nat) as int)
    }
}

proof fn lemma_floor_rem(x: int, d: int)
    requires
        d > 0,
    ensures
        0 <= x - floor_div_s(x, d) * d < d,
{
    if x >= 0 {
        lemma_fundamental_div_mod(x, d);
        lemma_mod_bound(x, d);
        assert(floor_div_s(x, d) == x / d);
        assert(x == d * (x / d) + x % d);
        assert(x - (x / d) * d == x % d) by (nonlinear_arith)
            requires
                x == d * (x / d) + x % d,
        ;
    } else {
        let n = -x;
        let q = (n + d - 1) / d;
        lemma_fundamental_div_mod(n + d - 1, d);
        lemma_mod_bound(n + d - 1, d);
        assert(floor_div_s(x, d) == -q);
        assert(n + d - 1 == d * q + (n + d - 1) % d);
        assert(x - (-q) * d == d - 1 - ((n + d - 1) % d)) by (nonlinear_arith)
            requires
                x == -n,
                n + d - 1 == d * q + (n + d - 1) % d,
        ;
    }
}

fn pow2_i64(e: u32) -> (r: i64)
    requires
        e <= 34,
    ensures
        r as int == pow2(e as nat) as int,
        1 <= r <= 0x4_0000_0000,
{
    let mut dd: i64 = 1;
    let mut i: u32 = 0;
    proof {
        lemma2_to64();
    }
    while i < e
        invariant
            i <= e <= 34,
            dd as int == pow2(i as nat) as int,
            1 <= dd <= 0x4_0000_0000,
        decreases e - i,
    {
        proof {
            lemma2_to64();
            lemma2_to64_rest();
            lemma_pow2_unfold((i + 1) as nat);
            if ((i + 1) as nat) < 34 {
                lemma_pow2_strictly_increases((i + 1) as nat, 34);
            }
        }
        dd = dd * 2;
        i = i + 1;
    }
    dd
}

/// Exponential; `MathError` exactly when the result leaves the range.
pub fn q_exp(x: Fx) -> (r: Result<Fx, FlowError>)
    ensures
        match r {
            Ok(v) => v@ == exp_s(x@) && !exp_oob_s(x@) && 0 <= v@,
            Err(e) => e == FlowError::MathError && exp_oob_s(x@),
        },
{
    let k: i64 = if x.raw >= 0 {
        ((x.raw as u64) / (LN2_RAW as u64)) as i64
    } else {
        let n: u64 = (-(x.raw as i128)) as u64;
        let q: u64 = (n + ((LN2_RAW - 1) as u64)) / (LN2_RAW as u64);
        proof {
            lemma_div_le((n + LN2_RAW - 1) as int, LN2_RAW as int, 0x4_0000_0000);
        }
        -(q as i64)
    };
    assert(k as int == exp_k_s(x@));
    if k >= 31 {
        return Err(FlowError::MathError);
    }
    proof {
        if k < 0 {
            lemma_div_le((-(x@) + LN2_RAW - 1) as int, LN2_RAW as int, 0x4_0000_0000);
        }
        lemma_mul_le(abs_i(k as int), LN2_RAW as int, 0x8000_0000_0000_0000, 0x1_0000_0000);
        lemma_mul_sign_magnitude(k as int, LN2_RAW as int);
        lemma_floor_rem(x@, LN2_RAW as int);
    }
    let r128: i128 = (x.raw as i128) - (k as i128) * (LN2_RAW as i128);
    let rr = Fx { raw: r128 as i64 };
    let c10 = add_t(
        Fx { raw: INV_3628800 },
        mul_b(rr, Fx { raw: INV_39916800 }, Ghost(0xC000_0000), Ghost(128)),
    );
    proof {
        lemma_q_mul_s_nonneg(rr@, INV_39916800 as int);
    }
    let c9 = add_t(Fx { raw: INV_362880 }, mul_b(rr, c10, Ghost(0xC000_0000), Ghost(2048)));
    proof {
        lemma_q_mul_s_nonneg(rr@, c10@);
    }
    let c8 = add_t(Fx { raw: INV_40320 }, mul_b(rr, c9, Ghost(0xC000_0000), Ghost(0x4000)));
    proof {
        lemma_q_mul_s_nonneg(rr@, c9@);
    }
    let c7 = add_t(Fx { raw: INV_5040 }, mul_b(rr, c8, Ghost(0xC000_0000), Ghost(0x20000)));
    proof {
        lemma_q_mul_s_nonneg(rr@, c8@);
    }
    let c6 = add_t(Fx { raw: INV_720 }, mul_b(rr, c7, Ghost(0xC000_0000), Ghost(0x100000)));
    proof {
        lemma_q_mul_s_nonneg(rr@, c7@);
    }
    let c5 = add_t(Fx { raw: INV_120 }, mul_b(rr, c6, Ghost(0xC000_0000), Ghost(0x800000)));
    proof {
        lemma_q_mul_s_nonneg(rr@, c6@);
    }
    let c4 = add_t(Fx { raw: INV_24 }, mul_b(rr, c5, Ghost(0xC000_0000), Ghost(0x4000000)));
    proof {
        lemma_q_mul_s_nonneg(rr@, c5@);
    }
    let c3 = add_t(Fx { raw: INV_6 }, mul_b(rr, c4, Ghost(0xC000_0000), Ghost(0x10000000)));
    proof {
        lemma_q_mul_s_nonneg(rr@, c4@);
    }
    let c2 = add_t(Fx { raw: INV_2 }, mul_b(rr, c3, Ghost(0xC000_0000), Ghost(0x40000000)));
    proof {
        lemma_q_mul_s_nonneg(rr@, c3@);
    }
    let c1 = add_t(Fx { raw: SCALE }, mul_b(rr, c2, Ghost(0xC000_0000), Ghost(0xC000_0000)));
    proof {
        lemma_q_mul_s_nonneg(rr@, c2@);
    }
    let p = add_t(Fx { raw: SCALE }, mul_b(rr, c1, Ghost(0xC000_0000), Ghost(0x2_0000_0000)));
    proof {
        lemma_q_mul_s_nonneg(rr@, c1@);
    }
    if k >= 0 {
        let pw = pow2_i64(k as u32);
        proof {
            lemma_mul_le(p@, pw as int, 0x3_0000_0000, 0x4_0000_0000);
            lemma_mul_le(1, 1, p@, pw as int);
        }
        let prod: i128 = (p.raw as i128) * (pw as i128);
        if prod > RAW_MAX as i128 {
            Err(FlowError::MathError)
        } else {
            Ok(Fx { raw: prod as i64 })
        }
    } else {
        let neg: i64 = -k;
        if neg >= 35 {
            proof {
                lemma2_to64();
                lemma2_to64_rest();
                if neg > 35 {
                    lemma_pow2_strictly_increases(35, neg as nat);
                }
                lemma_basic_div(p@, pow2(neg as nat) as int);
            }
            Ok(Fx { raw: 0 })
        } else {
            let dv = pow2_i64(neg as u32);
            let qv: u64 = (p.raw as u64) / (dv as u64);
            proof {
                lemma_mul_le(1, p@, dv as int, p@);
                lemma_div_le(p@, dv as int, p@);
            }
            Ok(Fx { raw: qv as i64 })
        }
    }
}

/// The power approximant: b^p = exp(p ln b).
pub open spec fn pow_s(b: int, p: int) -> int {
    exp_s(q_mul_s(p, ln_s(b)))
}

/// Power with a real exponent; `DomainError` exactly on a nonpositive base,
/// `MathError` exactly when an intermediate leaves the range.
pub fn q_pow(b: Fx, p: Fx) -> (r: Result<Fx, FlowError>)
    ensures
        match r {
            Ok(v) => b@ > 0 && fits(q_mul_s(p@, ln_s(b@))) && !exp_oob_s(q_mul_s(p@, ln_s(b@)))
                && v@ == pow_s(b@, p@) && 0 <= v@,
            Err(e) => (e == FlowError::DomainError && b@ <= 0) || (e == FlowError::MathError
                && b@ > 0 && (!fits(q_mul_s(p@, ln_s(b@))) || exp_oob_s(
                q_mul_s(p@, ln_s(b@)),
            ))),
        },
{
    let lb = match q_ln(b) {
        Ok(v) => v,
        Err(e) => {
            return Err(e);
        },
    };
    let m = match q_mul(p, lb) {
        Ok(v) => v,
        Err(e) => {
            return Err(e);
        },
    };
    q_exp(m)
}

} // verus!
