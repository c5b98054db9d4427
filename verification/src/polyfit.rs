use vstd::prelude::*;

use crate::error::FlowError;
use crate::fixed::{fits, q_add, q_mul, q_mul_s, Fx};

verus! {

/// The views of a coefficient sequence.
pub open spec fn coeff_views(s: Seq<Fx>) -> Seq<int> {
    s.map_values(|c: Fx| c@)
}

/// The value of a polynomial with ascending coefficients at x, evaluated by
/// Horner steps over the exact rounded fixed-point operations.
pub open spec fn poly_val_s(cs: Seq<int>, x: int) -> int
    decreases cs.len(),
{
    if cs.len() == 0 {
        0
    } else {
        cs[0] + q_mul_s(x, poly_val_s(cs.drop_first(), x))
    }
}

/// Does every Horner step of the evaluation stay in the fixed-point range?
pub open spec fn poly_ok_s(cs: Seq<int>, x: int) -> bool
    decreases cs.len(),
{
    if cs.len() == 0 {
        true
    } else {
        &&& poly_ok_s(cs.drop_first(), x)
        &&& fits(q_mul_s(x, poly_val_s(cs.drop_first(), x)))
        &&& fits(cs[0] + q_mul_s(x, poly_val_s(cs.drop_first(), x)))
    }
}

proof fn lemma_poly_not_ok_extends(cs: Seq<int>, x: int, j: int)
    requires
        0 <= j <= cs.len(),
        !poly_ok_s(cs.subrange(j, cs.len() as int), x),
    ensures
        !poly_ok_s(cs, x),
    decreases j,
{
    if j == 0 {
        assert(cs.subrange(0, cs.len() as int) =~= cs);
    } else {
        assert(cs.subrange(j - 1, cs.len() as int).drop_first() =~= cs.subrange(
            j,
            cs.len() as int,
        ));
        lemma_poly_not_ok_extends(cs, x, j - 1);
    }
}

/// A polynomial in one variable, with ascending fixed-point coefficients.
/// The fitting of coefficients to a contour is an external numerical concern;
/// this type only carries and evaluates them.
#[derive(Clone, Debug)]
pub struct Polynomial {
    pub order: usize,
    pub coeffs: Vec<Fx>,
}

impl Polynomial {
    /// An empty polynomial of the given order, awaiting coefficients.
    pub fn new(order: usize) -> (r: Polynomial)
        ensures
            r.order == order,
            r.coeffs@.len() == 0,
    {
        Polynomial { order, coeffs: Vec::new() }
    }

    /// Evaluate at x: exactly `poly_val_s` over the stored coefficients, and
    /// it succeeds exactly when every Horner step stays in range
    /// (`poly_ok_s`); otherwise `MathError`.
    pub fn eval(&self, x: Fx) -> (r: Result<Fx, FlowError>)
        ensures
            match r {
                Ok(v) => poly_ok_s(coeff_views(self.coeffs@), x@) && v@ == poly_val_s(
                    coeff_views(self.coeffs@),
                    x@,
                ),
                Err(e) => !poly_ok_s(coeff_views(self.coeffs@), x@) && e == FlowError::MathError,
            },
    {
        let n = self.coeffs.len();
        let mut acc = Fx { raw: 0 };
        let mut i: usize = n;
        proof {
            assert(coeff_views(self.coeffs@).subrange(n as int, n as int) =~= Seq::<int>::empty());
        }
        while i > 0
            invariant
                i <= n,
                n == self.coeffs@.len(),
                acc@ == poly_val_s(coeff_views(self.coeffs@).subrange(i as int, n as int), x@),
                poly_ok_s(coeff_views(self.coeffs@).subrange(i as int, n as int), x@),
            decreases i,
        {
            i = i - 1;
            proof {
                let views = coeff_views(self.coeffs@);
                assert(views.subrange(i as int, n as int).drop_first() =~= views.subrange(
                    i as int + 1,
                    n as int,
                ));
                assert(views.subrange(i as int, n as int)[0] == self.coeffs@[i as int]@);
            }
            let m = match q_mul(x, acc) {
                Ok(v) => v,
                Err(e) => {
                    proof {
                        lemma_poly_not_ok_extends(coeff_views(self.coeffs@), x@, i as int);
                    }
                    return Err(e);
                },
            };
            let next = match q_add(self.coeffs[i], m) {
                Ok(v) => v,
                Err(e) => {
                    proof {
                        lemma_poly_not_ok_extends(coeff_views(self.coeffs@), x@, i as int);
                    }
                    return Err(e);
                },
            };
            acc = next;
        }
        proof {
            assert(coeff_views(self.coeffs@).subrange(0, n as int) =~= coeff_views(
                self.coeffs@,
            ));
        }
        Ok(acc)
    }
}

} // verus!
