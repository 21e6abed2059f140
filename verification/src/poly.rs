//! Dense univariate polynomials over the scalar field, and the labeled
//! wrapper that ties a polynomial to the name under which it is committed
//! and opened.
use vstd::prelude::*;

use crate::field::{fadd, fmul, fp_add, fp_mul, is_felt, P};

verus! {

/// Every entry of the sequence is a reduced residue.
pub open spec fn is_felt_seq(s: Seq<u64>) -> bool {
    forall|i: int| 0 <= i < s.len() ==> is_felt(#[trigger] s[i])
}

/// Horner-form value of the polynomial tail `c[i..]` at `x`.
pub open spec fn peval_from(c: Seq<u64>, x: int, i: int) -> int
    decreases c.len() - i,
{
    if i < 0 || i >= c.len() {
        0
    } else {
        fadd(c[i] as int, fmul(x, peval_from(c, x, i + 1)))
    }
}

/// The value of the polynomial with coefficient sequence `c` at `x`,
/// low-order coefficient first.
pub open spec fn poly_eval(c: Seq<u64>, x: int) -> int {
    peval_from(c, x, 0)
}

/// A subrange of a well-formed coefficient sequence is well-formed.
pub proof fn lemma_subrange_felt(s: Seq<u64>, a: int, b: int)
    requires
        is_felt_seq(s),
        0 <= a <= b <= s.len(),
    ensures
        is_felt_seq(s.subrange(a, b)),
{
    assert forall|i: int| 0 <= i < s.subrange(a, b).len() implies is_felt(
        #[trigger] s.subrange(a, b)[i],
    ) by {
        assert(s.subrange(a, b)[i] == s[a + i]);
    }
}

/// A dense polynomial: coefficients low-order first, each a field element.
pub struct DensePoly {
    pub coeffs: Vec<u64>,
}

impl DensePoly {
    /// All coefficients are reduced residues.
    pub open spec fn wf(&self) -> bool {
        is_felt_seq(self.coeffs@)
    }

    /// Wraps a coefficient vector.
    pub fn from_coeffs(coeffs: Vec<u64>) -> (r: DensePoly)
        ensures
            r.coeffs@ == coeffs@,
    {
        DensePoly { coeffs }
    }

    /// Evaluates the polynomial at `x` by Horner's rule.
    pub fn evaluate(&self, x: &u64) -> (r: u64)
        requires
            self.wf(),
            is_felt(*x),
        ensures
            is_felt(r),
            r == poly_eval(self.coeffs@, *x as int),
    {
        let mut acc: u64 = 0;
        let mut i: usize = self.coeffs.len();
        while i > 0
            invariant
                self.wf(),
                is_felt(*x),
                i <= self.coeffs.len(),
                is_felt(acc),
                acc == peval_from(self.coeffs@, *x as int, i as int),
            decreases i,
        {
            i = i - 1;
            acc = fp_add(self.coeffs[i], fp_mul(*x, acc));
        }
        acc
    }

}

/// A named polynomial; the label identifies it across commitment,
/// opening and the verifier's evaluation set.
pub struct LabeledPolynomial {
    polynomial: DensePoly,
    label: String,
}

impl LabeledPolynomial {
    /// The labeled polynomial's coefficient view.
    pub closed spec fn poly_view(&self) -> Seq<u64> {
        self.polynomial.coeffs@
    }

    /// The labeled polynomial's label view.
    pub closed spec fn label_view(&self) -> Seq<char> {
        self.label@
    }

    /// All coefficients are reduced residues.
    pub open spec fn wf(&self) -> bool {
        is_felt_seq(self.poly_view())
    }

    /// Takes ownership of a polynomial under the given label.
    pub fn new_owned(label: String, polynomial: DensePoly) -> (r: LabeledPolynomial)
        ensures
            r.label_view() == label@,
            r.poly_view() == polynomial.coeffs@,
    {
        LabeledPolynomial { label, polynomial }
    }

    /// The label under which this polynomial is committed.
    pub fn label(&self) -> (r: &String)
        ensures
            r@ == self.label_view(),
    {
        &self.label
    }

    /// The underlying dense polynomial.
    pub fn polynomial(&self) -> (r: &DensePoly)
        ensures
            r.coeffs@ == self.poly_view(),
    {
        &self.polynomial
    }

    /// Evaluates the underlying polynomial at `loc`.
    pub fn evaluate(&self, loc: &u64) -> (r: u64)
        requires
            self.wf(),
            is_felt(*loc),
        ensures
            is_felt(r),
            r == poly_eval(self.poly_view(), *loc as int),
    {
        self.polynomial.evaluate(loc)
    }
}

} // verus!
