//! Power-of-two evaluation domains: the multiplicative subgroup of order
//! `n` generated by a `2^k`-th root of unity, conversion between
//! coefficient and evaluation form, and the vanishing / first-Lagrange
//! evaluations the protocol's terminal check needs.
//!
//! Interpolation is the inverse discrete Fourier transform written as a
//! direct sum: coefficient `j` of the interpolant is `n^-1` times the value
//! at `g^-j` of the polynomial whose coefficients are the evaluations. A
//! coset (shifted) domain is handled by unscaling coefficient `j` with the
//! `j`-th power of the inverse shift.
use vstd::prelude::*;

use crate::field::{
    fadd, finv, fmul, fp_inv, fp_mul, fp_pow, fp_sub, fpow, fsub, inv_ok, is_felt,
    lemma_fpow_adds, P, TWO_ADIC_ROOT,
};
use crate::poly::{is_felt_seq, poly_eval, DensePoly};

verus! {

/// `n` is a nonzero power of two.
pub open spec fn is_power_of_two(n: nat) -> bool
    decreases n,
{
    if n == 0 {
        false
    } else if n == 1 {
        true
    } else {
        n % 2 == 0 && is_power_of_two(n / 2)
    }
}

/// The generator of the size-`n` domain, as `Domain::new` computes it:
/// the `2^27`-th root raised to `2^27 / n`.
pub open spec fn domain_gen(n: int) -> int {
    fpow(TWO_ADIC_ROOT as int, (0x8000000int / n) as nat)
}

/// Every check `Domain::new` makes on a size `n` passes: the size is a
/// power of two inside the field's two-adic range, the computed generator
/// has order dividing `n`, and the two inverse checks go through.
pub open spec fn domain_ok(n: int) -> bool {
    &&& is_power_of_two(n as nat)
    &&& 0 < n <= 0x8000000
    &&& fpow(domain_gen(n), n as nat) == 1
    &&& inv_ok(domain_gen(n))
    &&& inv_ok(n)
}

/// The first-Lagrange denominator check at `zeta` passes: either the
/// degenerate point, or `n * (zeta - 1)` passes the inverse check.
pub open spec fn l1_ok(n: int, zeta: int) -> bool {
    zeta == 1 || inv_ok(fmul(n, fsub(zeta, 1)))
}

/// Doubles `acc` until it reaches `m`.
pub open spec fn next_pow2_from(acc: nat, m: nat) -> nat
    decreases 2 * m - acc,
{
    if acc == 0 {
        0
    } else if acc >= m {
        acc
    } else {
        next_pow2_from(2 * acc, m)
    }
}

/// The smallest power of two at or above `m` (and 1 for an empty size).
pub open spec fn next_pow2(m: nat) -> nat {
    next_pow2_from(1, m)
}

/// Coefficient `j` of the interpolant of `evals` over the domain with
/// inverse generator `g_inv` and inverse size `n_inv`.
pub open spec fn idft_coeff(evals: Seq<u64>, g_inv: int, n_inv: int, j: nat) -> int {
    fmul(n_inv, poly_eval(evals, fpow(g_inv, j)))
}

/// A multiplicative evaluation domain of power-of-two size `n`.
#[derive(Clone, Copy, PartialEq, Eq, Structural)]
pub struct Domain {
    pub n: usize,
    pub g: u64,
    pub g_inv: u64,
    pub n_inv: u64,
}

impl Domain {
    /// The stored generator and inverses really are what they claim:
    /// `g` has order dividing `n`, and the inverses invert.
    pub open spec fn wf(&self) -> bool {
        &&& 0 < self.n <= 0x8000000
        &&& is_felt(self.g)
        &&& is_felt(self.g_inv)
        &&& is_felt(self.n_inv)
        &&& fpow(self.g as int, self.n as nat) == 1
        &&& fmul(self.g as int, self.g_inv as int) == 1
        &&& fmul(self.n as int, self.n_inv as int) == 1
    }

    /// Builds the domain of size `n`: the generator is the `2^27`-th root
    /// raised to `2^27 / n`, and its defining equations are established by
    /// direct computation rather than by number theory. `None` when `n` is
    /// zero, not a power of two, or above `2^27`, or when an inverse
    /// check fails.
    pub fn new(n: usize) -> (r: Option<Domain>)
        ensures
            r is Some <==> domain_ok(n as int),
            r matches Some(d) ==> d.wf() && d.n == n && d.g == domain_gen(n as int) && d.g_inv
                == finv(d.g as int) && d.n_inv == finv(n as int),
    {
        if n == 0 || n > 0x8000000 {
            return None;
        }
        let mut m: usize = n;
        while m > 1
            invariant
                m >= 1,
                is_power_of_two(n as nat) == is_power_of_two(m as nat),
            decreases m,
        {
            if m % 2 != 0 {
                return None;
            }
            m = m / 2;
        }
        assert(is_power_of_two(n as nat));
        let e: u64 = 0x8000000 / (n as u64);
        let g: u64 = fp_pow(TWO_ADIC_ROOT, e);
        if fp_pow(g, n as u64) != 1 {
            return None;
        }
        let g_inv: u64 = match fp_inv(g) {
            Some(v) => v,
            None => {
                return None;
            },
        };
        let n_inv: u64 = match fp_inv((n as u64) % P) {
            Some(v) => v,
            None => {
                return None;
            },
        };
        proof {
            vstd::arithmetic::div_mod::lemma_small_mod(n as nat, P as nat);
            crate::field::lemma_fmul_reduce(n as int, finv(n as int));
        }
        Some(Domain { n, g, g_inv, n_inv })
    }

    /// The domain points `g^0, g^1, ..., g^(n-1)`.
    pub fn elements(&self) -> (r: Vec<u64>)
        requires
            self.wf(),
        ensures
            r@.len() == self.n,
            is_felt_seq(r@),
            forall|i: int| 0 <= i < self.n ==> #[trigger] r@[i] == fpow(self.g as int, i as nat),
    {
        powers_of(self.g, self.n)
    }

    /// The coset points `shift * g^i`.
    pub fn coset_elements(&self, shift: u64) -> (r: Vec<u64>)
        requires
            self.wf(),
            is_felt(shift),
        ensures
            r@.len() == self.n,
            is_felt_seq(r@),
            forall|i: int|
                0 <= i < self.n ==> #[trigger] r@[i] == fmul(
                    shift as int,
                    fpow(self.g as int, i as nat),
                ),
    {
        let pows: Vec<u64> = powers_of(self.g, self.n);
        let mut out: Vec<u64> = Vec::new();
        let mut i: usize = 0;
        while i < self.n
            invariant
                self.wf(),
                is_felt(shift),
                i <= self.n,
                pows@.len() == self.n,
                is_felt_seq(pows@),
                forall|j: int|
                    0 <= j < self.n ==> #[trigger] pows@[j] == fpow(self.g as int, j as nat),
                out@.len() == i,
                is_felt_seq(out@),
                forall|j: int|
                    0 <= j < i ==> #[trigger] out@[j] == fmul(
                        shift as int,
                        fpow(self.g as int, j as nat),
                    ),
            decreases self.n - i,
        {
            out.push(fp_mul(shift, pows[i]));
            i = i + 1;
        }
        out
    }

    /// Interpolates evaluations over this domain into coefficient form:
    /// the inverse transform, coefficient by coefficient.
    pub fn interpolate(&self, evals: &Vec<u64>) -> (r: DensePoly)
        requires
            self.wf(),
            evals@.len() == self.n,
            is_felt_seq(evals@),
        ensures
            r.wf(),
            r.coeffs@.len() == self.n,
            forall|j: int|
                0 <= j < self.n ==> #[trigger] r.coeffs@[j] == idft_coeff(
                    evals@,
                    self.g_inv as int,
                    self.n_inv as int,
                    j as nat,
                ),
    {
        let ev: DensePoly = DensePoly { coeffs: clone_u64_vec(evals) };
        let mut out: Vec<u64> = Vec::new();
        let mut x: u64 = 1;
        let mut j: usize = 0;
        while j < self.n
            invariant
                self.wf(),
                ev.coeffs@ == evals@,
                evals@.len() == self.n,
                is_felt_seq(evals@),
                j <= self.n,
                is_felt(x),
                x == fpow(self.g_inv as int, j as nat),
                out@.len() == j,
                is_felt_seq(out@),
                forall|k: int|
                    0 <= k < j ==> #[trigger] out@[k] == idft_coeff(
                        evals@,
                        self.g_inv as int,
                        self.n_inv as int,
                        k as nat,
                    ),
            decreases self.n - j,
        {
            let v: u64 = ev.evaluate(&x);
            out.push(fp_mul(self.n_inv, v));
            proof {
                lemma_fpow_adds(self.g_inv as int, 1, j as nat);
                assert(fpow(self.g_inv as int, 1) == fmul(self.g_inv as int, fpow(self.g_inv as int, 0)));
                crate::field::lemma_fmul_reduce(self.g_inv as int, 1);
                vstd::arithmetic::div_mod::lemma_small_mod(self.g_inv as nat, P as nat);
            }
            x = fp_mul(self.g_inv, x);
            j = j + 1;
        }
        DensePoly { coeffs: out }
    }

    /// Interpolates evaluations taken on the coset `shift * H`: the plain
    /// inverse transform, then coefficient `j` unscaled by `shift^-j`.
    pub fn coset_interpolate(&self, evals: &Vec<u64>, shift_inv: u64) -> (r: DensePoly)
        requires
            self.wf(),
            evals@.len() == self.n,
            is_felt_seq(evals@),
            is_felt(shift_inv),
        ensures
            r.wf(),
            r.coeffs@.len() == self.n,
            forall|j: int|
                0 <= j < self.n ==> #[trigger] r.coeffs@[j] == fmul(
                    idft_coeff(evals@, self.g_inv as int, self.n_inv as int, j as nat),
                    fpow(shift_inv as int, j as nat),
                ),
    {
        let base: DensePoly = self.interpolate(evals);
        let mut out: Vec<u64> = Vec::new();
        let mut x: u64 = 1;
        let mut j: usize = 0;
        while j < self.n
            invariant
                self.wf(),
                evals@.len() == self.n,
                is_felt_seq(evals@),
                is_felt(shift_inv),
                base.wf(),
                base.coeffs@.len() == self.n,
                forall|k: int|
                    0 <= k < self.n ==> #[trigger] base.coeffs@[k] == idft_coeff(
                        evals@,
                        self.g_inv as int,
                        self.n_inv as int,
                        k as nat,
                    ),
                j <= self.n,
                is_felt(x),
                x == fpow(shift_inv as int, j as nat),
                out@.len() == j,
                is_felt_seq(out@),
                forall|k: int|
                    0 <= k < j ==> #[trigger] out@[k] == fmul(
                        idft_coeff(evals@, self.g_inv as int, self.n_inv as int, k as nat),
                        fpow(shift_inv as int, k as nat),
                    ),
            decreases self.n - j,
        {
            out.push(fp_mul(base.coeffs[j], x));
            proof {
                lemma_fpow_adds(shift_inv as int, 1, j as nat);
                assert(fpow(shift_inv as int, 1) == fmul(shift_inv as int, fpow(shift_inv as int, 0)));
                crate::field::lemma_fmul_reduce(shift_inv as int, 1);
                vstd::arithmetic::div_mod::lemma_small_mod(shift_inv as nat, P as nat);
            }
            x = fp_mul(shift_inv, x);
            j = j + 1;
        }
        DensePoly { coeffs: out }
    }

    /// The vanishing polynomial of the domain, `x^n - 1`, at `zeta`.
    pub fn vanishing_eval(&self, zeta: u64) -> (r: u64)
        requires
            self.wf(),
            is_felt(zeta),
        ensures
            is_felt(r),
            r == fsub(fpow(zeta as int, self.n as nat), 1),
    {
        proof {
            crate::field::lemma_fpow_bound(zeta as int, self.n as nat);
        }
        let zn: u64 = fp_pow(zeta, self.n as u64);
        fp_sub(zn, 1)
    }

    /// The first Lagrange basis polynomial of the domain at `zeta`:
    /// `(zeta^n - 1) / (n * (zeta - 1))`, and 1 at `zeta = 1` where that
    /// quotient degenerates. `None` only when the inverse check on the
    /// denominator fails.
    pub fn first_lagrange_eval(&self, zeta: u64) -> (r: Option<u64>)
        requires
            self.wf(),
            is_felt(zeta),
        ensures
            r is Some <==> l1_ok(self.n as int, zeta as int),
            zeta == 1 ==> r == Some(1u64),
            r matches Some(v) ==> is_felt(v) && (zeta != 1 ==> v == fmul(
                fsub(fpow(zeta as int, self.n as nat), 1),
                finv(fmul(self.n as int, fsub(zeta as int, 1))),
            )),
    {
        if zeta == 1 {
            return Some(1);
        }
        let num: u64 = self.vanishing_eval(zeta);
        proof {
            vstd::arithmetic::div_mod::lemma_small_mod(self.n as nat, P as nat);
            crate::field::lemma_fmul_reduce(self.n as int, fsub(zeta as int, 1));
        }
        let den: u64 = fp_mul((self.n as u64) % P, fp_sub(zeta, 1));
        match fp_inv(den) {
            Some(d) => Some(fp_mul(num, d)),
            None => None,
        }
    }
}

/// The powers `base^0, ..., base^(count-1)`.
pub fn powers_of(base: u64, count: usize) -> (r: Vec<u64>)
    requires
        is_felt(base),
    ensures
        r@.len() == count,
        is_felt_seq(r@),
        forall|i: int| 0 <= i < count ==> #[trigger] r@[i] == fpow(base as int, i as nat),
{
    let mut out: Vec<u64> = Vec::new();
    let mut acc: u64 = 1;
    let mut i: usize = 0;
    while i < count
        invariant
            is_felt(base),
            i <= count,
            is_felt(acc),
            acc == fpow(base as int, i as nat),
            out@.len() == i,
            is_felt_seq(out@),
            forall|j: int| 0 <= j < i ==> #[trigger] out@[j] == fpow(base as int, j as nat),
        decreases count - i,
    {
        out.push(acc);
        proof {
            lemma_fpow_adds(base as int, 1, i as nat);
            assert(fpow(base as int, 1) == fmul(base as int, fpow(base as int, 0)));
            crate::field::lemma_fmul_reduce(base as int, 1);
            vstd::arithmetic::div_mod::lemma_small_mod(base as nat, P as nat);
        }
        acc = fp_mul(base, acc);
        i = i + 1;
    }
    out
}

/// Evaluates the coefficient vector at every point of `points`.
pub fn evals_at(coeffs: &DensePoly, points: &Vec<u64>) -> (r: Vec<u64>)
    requires
        coeffs.wf(),
        is_felt_seq(points@),
    ensures
        r@.len() == points@.len(),
        is_felt_seq(r@),
        forall|i: int|
            0 <= i < points@.len() ==> #[trigger] r@[i] == poly_eval(coeffs.coeffs@, points@[i] as int),
{
    let mut out: Vec<u64> = Vec::new();
    let mut i: usize = 0;
    while i < points.len()
        invariant
            coeffs.wf(),
            is_felt_seq(points@),
            i <= points@.len(),
            out@.len() == i,
            is_felt_seq(out@),
            forall|j: int|
                0 <= j < i ==> #[trigger] out@[j] == poly_eval(coeffs.coeffs@, points@[j] as int),
        decreases points@.len() - i,
    {
        out.push(coeffs.evaluate(&points[i]));
        i = i + 1;
    }
    out
}

/// Copies a vector of field elements.
pub fn clone_u64_vec(v: &Vec<u64>) -> (r: Vec<u64>)
    ensures
        r@ == v@,
{
    let mut out: Vec<u64> = Vec::new();
    let mut i: usize = 0;
    while i < v.len()
        invariant
            i <= v@.len(),
            out@ == v@.subrange(0, i as int),
        decreases v@.len() - i,
    {
        out.push(v[i]);
        i = i + 1;
    }
    proof {
        assert(out@ =~= v@);
    }
    out
}

/// Pads a vector with zeros up to length `n` (identity when already long
/// enough).
pub fn pad_to(v: &Vec<u64>, n: usize) -> (r: Vec<u64>)
    ensures
        r@.len() == if v@.len() >= n {
            v@.len() as int
        } else {
            n as int
        },
        forall|i: int| 0 <= i < v@.len() ==> #[trigger] r@[i] == v@[i],
        forall|i: int| v@.len() <= i < r@.len() ==> #[trigger] r@[i] == 0,
{
    let mut out: Vec<u64> = clone_u64_vec(v);
    while out.len() < n
        invariant
            out@.len() >= v@.len(),
            forall|i: int| 0 <= i < v@.len() ==> #[trigger] out@[i] == v@[i],
            forall|i: int| v@.len() <= i < out@.len() ==> #[trigger] out@[i] == 0,
            out@.len() <= n || out@.len() == v@.len(),
        decreases n - out.len(),
    {
        out.push(0);
    }
    out
}

} // verus!
