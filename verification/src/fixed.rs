use vstd::prelude::*;

use crate::error::FlowError;

verus! {

/// One whole unit in Q32.32 fixed point: 2^32.
pub const SCALE: i64 = 0x1_0000_0000;

/// Symmetric magnitude bound for a stored scalar: |raw| <= 2^63 - 1.
pub const RAW_MAX: i64 = 0x7fff_ffff_ffff_ffff;

/// A real-valued scalar of the flow problem, held as a Q32.32 fixed-point
/// number: `raw` is the value scaled by 2^32 and rounded toward zero.
///
/// Every arithmetic operation on `Fx` either returns the exactly specified
/// rounded result or reports `FlowError::MathError`; nothing overflows
/// silently and nothing panics.
#[derive(Clone, Copy, Debug, PartialEq, Eq, Structural)]
pub struct Fx {
    pub raw: i64,
}

impl View for Fx {
    type V = int;

    open spec fn view(&self) -> int {
        self.raw as int
    }
}

/// Magnitude of a mathematical integer.
pub open spec fn abs_i(n: int) -> int {
    if n >= 0 {
        n
    } else {
        -n
    }
}

/// Division rounded toward zero, for a positive divisor.
pub open spec fn tz_div(n: int, d: int) -> int {
    if n >= 0 {
        n / d
    } else {
        -((-n) / d)
    }
}

/// Does a raw value fit the symmetric i64 range kept by the arithmetic?
pub open spec fn fits(n: int) -> bool {
    -(RAW_MAX as int) <= n <= RAW_MAX as int
}

/// Exact raw value of the fixed-point product: (a * b) / 2^32, toward zero.
pub open spec fn q_mul_s(a: int, b: int) -> int {
    tz_div(a * b, SCALE as int)
}

/// Exact raw value of the fixed-point quotient: (a * 2^32) / b, toward zero.
/// Meaningful only for b != 0; the executable division reports `MathError`
/// on a zero divisor.
pub open spec fn q_div_s(a: int, b: int) -> int {
    if (a >= 0) == (b >= 0) {
        (abs_i(a) * (SCALE as int)) / abs_i(b)
    } else {
        -((abs_i(a) * (SCALE as int)) / abs_i(b))
    }
}

pub(crate) proof fn lemma_mul_sign_magnitude(a: int, b: int)
    ensures
        a * b == if (a >= 0) == (b >= 0) {
            abs_i(a) * abs_i(b)
        } else {
            -(abs_i(a) * abs_i(b))
        },
{
    assert(a * b == if (a >= 0) == (b >= 0) {
        abs_i(a) * abs_i(b)
    } else {
        -(abs_i(a) * abs_i(b))
    }) by (nonlinear_arith);
}

pub(crate) proof fn lemma_mul_le(a: int, b: int, c: int, d: int)
    requires
        0 <= a <= c,
        0 <= b <= d,
    ensures
        a * b <= c * d,
{
    assert(a * b <= c * d) by (nonlinear_arith)
        requires
            0 <= a <= c,
            0 <= b <= d,
    ;
}

/// Magnitude of a raw value, total over all of i64.
pub(crate) fn mag64(x: i64) -> (m: u64)
    ensures
        m == abs_i(x as int),
{
    if x >= 0 {
        x as u64
    } else {
        (-(x as i128)) as u64
    }
}

/// Reapply a sign to a nonnegative magnitude that fits the symmetric range.
fn apply_sign(m: u64, nonneg: bool) -> (r: i64)
    requires
        m <= RAW_MAX as u64,
    ensures
        r as int == if nonneg {
            m as int
        } else {
            -(m as int)
        },
{
    if nonneg {
        m as i64
    } else {
        -(m as i64)
    }
}

impl Fx {
    /// Wrap a raw Q32.32 bit pattern.
    pub fn from_raw(raw: i64) -> (r: Fx)
        ensures
            r@ == raw as int,
    {
        Fx { raw }
    }

    /// The scalar zero.
    pub fn zero() -> (r: Fx)
        ensures
            r@ == 0,
    {
        Fx { raw: 0 }
    }

    /// The scalar one.
    pub fn one() -> (r: Fx)
        ensures
            r@ == SCALE as int,
    {
        Fx { raw: SCALE }
    }
}

/// Fixed-point sum; exact, or `MathError` when the sum leaves the range.
pub fn q_add(a: Fx, b: Fx) -> (r: Result<Fx, FlowError>)
    ensures
        match r {
            Ok(v) => v@ == a@ + b@ && fits(a@ + b@),
            Err(e) => e == FlowError::MathError && !fits(a@ + b@),
        },
{
    let s: i128 = a.raw as i128 + b.raw as i128;
    if -0x7fff_ffff_ffff_ffffi128 <= s && s <= 0x7fff_ffff_ffff_ffffi128 {
        Ok(Fx { raw: s as i64 })
    } else {
        Err(FlowError::MathError)
    }
}

/// Fixed-point difference; exact, or `MathError` when it leaves the range.
pub fn q_sub(a: Fx, b: Fx) -> (r: Result<Fx, FlowError>)
    ensures
        match r {
            Ok(v) => v@ == a@ - b@ && fits(a@ - b@),
            Err(e) => e == FlowError::MathError && !fits(a@ - b@),
        },
{
    let s: i128 = a.raw as i128 - b.raw as i128;
    if -0x7fff_ffff_ffff_ffffi128 <= s && s <= 0x7fff_ffff_ffff_ffffi128 {
        Ok(Fx { raw: s as i64 })
    } else {
        Err(FlowError::MathError)
    }
}

/// Fixed-point negation; exact, or `MathError` for the one unrepresentable
/// magnitude.
pub fn q_neg(a: Fx) -> (r: Result<Fx, FlowError>)
    ensures
        match r {
            Ok(v) => v@ == -a@ && fits(-a@),
            Err(e) => e == FlowError::MathError && !fits(-a@),
        },
{
    if a.raw >= -RAW_MAX {
        Ok(Fx { raw: -a.raw })
    } else {
        Err(FlowError::MathError)
    }
}

/// Fixed-point product, rounded toward zero; `MathError` when the rounded
/// product leaves the range.
pub fn q_mul(a: Fx, b: Fx) -> (r: Result<Fx, FlowError>)
    ensures
        match r {
            Ok(v) => v@ == q_mul_s(a@, b@) && fits(q_mul_s(a@, b@)),
            Err(e) => e == FlowError::MathError && !fits(q_mul_s(a@, b@)),
        },
{
    let ma: u64 = mag64(a.raw);
    let mb: u64 = mag64(b.raw);
    proof {
        lemma_mul_le(ma as int, mb as int, 0x8000_0000_0000_0000, 0x8000_0000_0000_0000);
        lemma_mul_sign_magnitude(a@, b@);
    }
    let p: u128 = (ma as u128) * (mb as u128);
    let q: u128 = p / (SCALE as u128);
    if q <= 0x7fff_ffff_ffff_ffffu128 {
        Ok(Fx { raw: apply_sign(q as u64, (a.raw >= 0) == (b.raw >= 0)) })
    } else {
        Err(FlowError::MathError)
    }
}

/// Fixed-point quotient, rounded toward zero; `MathError` on a zero divisor
/// or when the rounded quotient leaves the range.
pub fn q_div(a: Fx, b: Fx) -> (r: Result<Fx, FlowError>)
    ensures
        match r {
            Ok(v) => b@ != 0 && v@ == q_div_s(a@, b@) && fits(q_div_s(a@, b@)),
            Err(e) => e == FlowError::MathError && (b@ == 0 || !fits(q_div_s(a@, b@))),
        },
{
    if b.raw == 0 {
        return Err(FlowError::MathError);
    }
    let ma: u64 = mag64(a.raw);
    let mb: u64 = mag64(b.raw);
    proof {
        lemma_mul_le(ma as int, SCALE as int, 0x8000_0000_0000_0000, 0x1_0000_0000);
        lemma_mul_sign_magnitude(a@, b@);
    }
    let n: u128 = (ma as u128) * (SCALE as u128);
    let q: u128 = n / (mb as u128);
    if q <= 0x7fff_ffff_ffff_ffffu128 {
        Ok(Fx { raw: apply_sign(q as u64, (a.raw >= 0) == (b.raw >= 0)) })
    } else {
        Err(FlowError::MathError)
    }
}

/// Exact halving toward zero; never fails.
pub fn q_half(a: Fx) -> (r: Fx)
    ensures
        r@ == tz_div(a@, 2),
{
    let m: u64 = mag64(a.raw);
    let h: u64 = m / 2;
    apply_sign_fx(h, a.raw >= 0)
}

/// Shared tail of the halving operations.
fn apply_sign_fx(m: u64, nonneg: bool) -> (r: Fx)
    requires
        m <= RAW_MAX as u64,
    ensures
        r@ == if nonneg {
            m as int
        } else {
            -(m as int)
        },
{
    Fx { raw: apply_sign(m, nonneg) }
}

/// Midpoint of two scalars, rounded toward zero; never fails, and lies
/// between its ordered arguments.
pub fn q_avg(a: Fx, b: Fx) -> (r: Fx)
    ensures
        r@ == tz_div(a@ + b@, 2),
        a@ <= b@ ==> a@ <= r@ <= b@,
{
    let s: i128 = a.raw as i128 + b.raw as i128;
    let h: i128 = if s >= 0 {
        ((s as u128) / 2) as i128
    } else {
        -((((-s) as u128) / 2) as i128)
    };
    Fx { raw: h as i64 }
}

/// Floor square root in Q32.32: the result `v` satisfies
/// v^2 <= x * 2^32 < (v + 1)^2 over the raw values, which pins `v` exactly.
/// A negative argument is a `DomainError`.
pub fn q_sqrt(x: Fx) -> (r: Result<Fx, FlowError>)
    ensures
        match r {
            Ok(v) => x@ >= 0 && 0 <= v@ && v@ * v@ <= x@ * (SCALE as int) < (v@ + 1) * (v@ + 1),
            Err(e) => e == FlowError::DomainError && x@ < 0,
        },
{
    if x.raw < 0 {
        return Err(FlowError::DomainError);
    }
    let n: u128 = (x.raw as u128) * (SCALE as u128);
    let mut lo: u128 = 0;
    let mut hi: u128 = 0x1_0000_0000_0000u128;
    proof {
        lemma_mul_le(n as int, 1, (0x7fff_ffff_ffff_ffff as int) * (0x1_0000_0000 as int), 1);
    }
    assert(hi * hi > n) by (nonlinear_arith)
        requires
            n < 0x1_0000_0000_0000_0000_0000_0000,
            hi == 0x1_0000_0000_0000u128,
    ;
    while lo + 1 < hi
        invariant
            lo < hi <= 0x1_0000_0000_0000u128,
            lo * lo <= n,
            hi * hi > n,
            n == x@ * (SCALE as int),
        decreases hi - lo,
    {
        let mid: u128 = lo + (hi - lo) / 2;
        assert(lo < mid < hi);
        assert(mid * mid <= 0x1_0000_0000_0000u128 * 0x1_0000_0000_0000u128) by (nonlinear_arith)
            requires
                mid <= 0x1_0000_0000_0000u128,
        ;
        if mid * mid <= n {
            lo = mid;
        } else {
            hi = mid;
        }
    }
    Ok(Fx { raw: lo as i64 })
}

} // verus!
