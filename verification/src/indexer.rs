//! The indexer: compiles a fixed circuit into committed-polynomial form.
//!
//! Each selector column and each permutation column is materialized three
//! ways: as a coefficient-form labeled polynomial interpolated over the
//! size-`n` domain, as its evaluations on that domain (the padded column
//! itself), and as its evaluations on a size-`4n` coset, which is where
//! the quotient is computed so that the degree growth of the products
//! never aliases and the vanishing polynomial never hits a zero.
use vstd::prelude::*;

use crate::composer::{Composer, PERMUTED_WIRES};
use crate::domain::{evals_at, idft_coeff, pad_to, powers_of, Domain};
use crate::field::{fadd, fmul, fp_add, fp_mul, fpow, fsub, is_felt, MULT_GEN, P};
use crate::poly::{is_felt_seq, poly_eval, DensePoly, LabeledPolynomial};
use crate::Error;

verus! {

/// Circuit-size metadata, immutable once the index is built.
#[derive(Clone, Copy)]
pub struct IndexInfo {
    /// The domain size: the number of rows rounded up to a power of two.
    pub n: usize,
    /// The number of per-gate public-input slots.
    pub n_pi: usize,
}

/// One indexed column in its three representations.
pub struct SelectorData {
    /// Coefficient form over the size-`n` domain.
    pub poly: LabeledPolynomial,
    /// Evaluations on the size-`n` domain: the padded column itself.
    pub evals_n: Vec<u64>,
    /// Evaluations on the size-`4n` coset.
    pub evals_4n: Vec<u64>,
}

/// The `i`-th point of the size-`4n` coset: the field generator times the
/// `i`-th root of unity, so the coset misses every root of unity.
pub open spec fn coset_point(g4: int, i: int) -> int {
    fmul(MULT_GEN as int, fpow(g4, i as nat))
}

/// `v` padded with zeros up to length `n`.
pub open spec fn padded(v: Seq<u64>, n: nat) -> Seq<u64> {
    Seq::new(n, |i: int| if i < v.len() { v[i] } else { 0u64 })
}

/// What it means for `sd` to index the column `src` over domain `dn` with
/// coset evaluations over `d4`: the domain-`n` evaluations are the padded
/// column, the polynomial is its interpolant, and the coset evaluations
/// are that polynomial's values on the shifted large domain.
pub open spec fn selector_ok(sd: &SelectorData, src: Seq<u64>, dn: Domain, d4: Domain) -> bool {
    &&& sd.evals_n@ == padded(src, dn.n as nat)
    &&& is_felt_seq(sd.evals_n@)
    &&& sd.poly.wf()
    &&& sd.poly.poly_view().len() == dn.n
    &&& forall|j: int|
        0 <= j < dn.n ==> #[trigger] sd.poly.poly_view()[j] == idft_coeff(
            sd.evals_n@,
            dn.g_inv as int,
            dn.n_inv as int,
            j as nat,
        )
    &&& sd.evals_4n@.len() == d4.n
    &&& is_felt_seq(sd.evals_4n@)
    &&& forall|i: int|
        0 <= i < d4.n ==> #[trigger] sd.evals_4n@[i] == poly_eval(
            sd.poly.poly_view(),
            coset_point(d4.g as int, i),
        )
}

/// Builds the three representations of one column.
fn make_selector(src: &Vec<u64>, label: String, dn: &Domain, d4: &Domain, coset4: &Vec<u64>) -> (r:
    SelectorData)
    requires
        dn.wf(),
        d4.wf(),
        is_felt_seq(src@),
        src@.len() <= dn.n,
        coset4@.len() == d4.n,
        is_felt_seq(coset4@),
        forall|i: int| 0 <= i < d4.n ==> #[trigger] coset4@[i] == coset_point(d4.g as int, i),
    ensures
        selector_ok(&r, src@, *dn, *d4),
        r.poly.label_view() == label@,
{
    let ev: Vec<u64> = pad_to(src, dn.n);
    proof {
        assert(ev@ =~= padded(src@, dn.n as nat));
    }
    let p: DensePoly = dn.interpolate(&ev);
    let e4: Vec<u64> = evals_at(&p, coset4);
    let lp: LabeledPolynomial = LabeledPolynomial::new_owned(label, p);
    SelectorData { poly: lp, evals_n: ev, evals_4n: e4 }
}

/// One term of the arithmetic linearization: the opened gate values
/// weighted onto the still-committed selector labels.
pub struct LinearCombination {
    /// The combination's own label.
    pub label: String,
    /// Coefficient and committed-polynomial label, per term.
    pub terms: Vec<(u64, String)>,
}

/// The single generalized arithmetic gate value at one point:
/// `(q_0 w_0 + q_1 w_1 + q_2 w_2 + q_3 w_3 + q_m w_1 w_2 + q_c + pi) * q_arith`,
/// with the selector products folded left to right.
pub open spec fn gate_sum(
    w_0: int,
    w_1: int,
    w_2: int,
    w_3: int,
    q_0: int,
    q_1: int,
    q_2: int,
    q_3: int,
    q_m: int,
    q_c: int,
    pi: int,
) -> int {
    fadd(
        fadd(
            fadd(
                fadd(fadd(fadd(fmul(q_0, w_0), fmul(q_1, w_1)), fmul(q_2, w_2)), fmul(q_3, w_3)),
                fmul(fmul(q_m, w_1), w_2),
            ),
            q_c,
        ),
        pi,
    )
}

/// The arithmetic quotient term at one point: zero where the row's
/// switch is off, else the row's constraint value scaled by that switch.
pub open spec fn gate_eval(
    w_0: int,
    w_1: int,
    w_2: int,
    w_3: int,
    q_0: int,
    q_1: int,
    q_2: int,
    q_3: int,
    q_m: int,
    q_c: int,
    q_arith: int,
    pi: int,
) -> int {
    if q_arith == 0 {
        0
    } else {
        fmul(gate_sum(w_0, w_1, w_2, w_3, q_0, q_1, q_2, q_3, q_m, q_c, pi), q_arith)
    }
}

/// Wherever the switch selector is zero, the arithmetic quotient term
/// is exactly zero, whatever the wire values.
pub proof fn lemma_gate_disabled_is_zero(
    w_0: int,
    w_1: int,
    w_2: int,
    w_3: int,
    q_0: int,
    q_1: int,
    q_2: int,
    q_3: int,
    q_m: int,
    q_c: int,
    pi: int,
)
    ensures
        gate_eval(w_0, w_1, w_2, w_3, q_0, q_1, q_2, q_3, q_m, q_c, 0, pi) == 0,
{
}

/// The seven arithmetic selector columns of the index.
pub struct ArithmeticKey {
    /// Selector on wire 0.
    pub q_0: SelectorData,
    /// Selector on wire 1.
    pub q_1: SelectorData,
    /// Selector on wire 2.
    pub q_2: SelectorData,
    /// Selector on wire 3.
    pub q_3: SelectorData,
    /// Selector on the product of wires 1 and 2.
    pub q_m: SelectorData,
    /// Constant selector.
    pub q_c: SelectorData,
    /// Gate switch.
    pub q_arith: SelectorData,
}

impl ArithmeticKey {
    /// Every selector carries coset evaluations of length `n4`.
    pub open spec fn wf_4n(&self, n4: nat) -> bool {
        &&& self.q_0.evals_4n@.len() == n4 && is_felt_seq(self.q_0.evals_4n@)
        &&& self.q_1.evals_4n@.len() == n4 && is_felt_seq(self.q_1.evals_4n@)
        &&& self.q_2.evals_4n@.len() == n4 && is_felt_seq(self.q_2.evals_4n@)
        &&& self.q_3.evals_4n@.len() == n4 && is_felt_seq(self.q_3.evals_4n@)
        &&& self.q_m.evals_4n@.len() == n4 && is_felt_seq(self.q_m.evals_4n@)
        &&& self.q_c.evals_4n@.len() == n4 && is_felt_seq(self.q_c.evals_4n@)
        &&& self.q_arith.evals_4n@.len() == n4 && is_felt_seq(self.q_arith.evals_4n@)
    }

    /// The linearization combination the verifier builds at the query
    /// point: each opened wire value, weighted by the opened gate switch,
    /// becomes the coefficient of the matching still-committed selector.
    pub fn construct_linear_combination(w_evals: (u64, u64, u64, u64), q_arith_eval: u64) -> (r:
        LinearCombination)
        requires
            is_felt(w_evals.0),
            is_felt(w_evals.1),
            is_felt(w_evals.2),
            is_felt(w_evals.3),
            is_felt(q_arith_eval),
        ensures
            r.label@ == "arithmetic"@,
            r.terms@.len() == 6,
            r.terms@[0].0 == fmul(q_arith_eval as int, w_evals.0 as int) && r.terms@[0].1@
                == "q_0"@,
            r.terms@[1].0 == fmul(q_arith_eval as int, w_evals.1 as int) && r.terms@[1].1@
                == "q_1"@,
            r.terms@[2].0 == fmul(q_arith_eval as int, w_evals.2 as int) && r.terms@[2].1@
                == "q_2"@,
            r.terms@[3].0 == fmul(q_arith_eval as int, w_evals.3 as int) && r.terms@[3].1@
                == "q_3"@,
            r.terms@[4].0 == fmul(fmul(q_arith_eval as int, w_evals.1 as int), w_evals.2 as int)
                && r.terms@[4].1@ == "q_m"@,
            r.terms@[5].0 == q_arith_eval && r.terms@[5].1@ == "q_c"@,
    {
        let (w_0_eval, w_1_eval, w_2_eval, w_3_eval) = w_evals;
        let mut terms: Vec<(u64, String)> = Vec::new();
        terms.push((fp_mul(q_arith_eval, w_0_eval), "q_0".to_owned()));
        terms.push((fp_mul(q_arith_eval, w_1_eval), "q_1".to_owned()));
        terms.push((fp_mul(q_arith_eval, w_2_eval), "q_2".to_owned()));
        terms.push((fp_mul(q_arith_eval, w_3_eval), "q_3".to_owned()));
        terms.push((fp_mul(fp_mul(q_arith_eval, w_1_eval), w_2_eval), "q_m".to_owned()));
        terms.push((q_arith_eval, "q_c".to_owned()));
        LinearCombination { label: "arithmetic".to_owned(), terms }
    }

    /// The seven labeled selector polynomials, in commitment order.
    pub fn iter(&self) -> (r: Vec<&LabeledPolynomial>)
        ensures
            r@.len() == 7,
            r@[0] == &self.q_0.poly,
            r@[1] == &self.q_1.poly,
            r@[2] == &self.q_2.poly,
            r@[3] == &self.q_3.poly,
            r@[4] == &self.q_m.poly,
            r@[5] == &self.q_c.poly,
            r@[6] == &self.q_arith.poly,
    {
        let mut v: Vec<&LabeledPolynomial> = Vec::new();
        v.push(&self.q_0.poly);
        v.push(&self.q_1.poly);
        v.push(&self.q_2.poly);
        v.push(&self.q_3.poly);
        v.push(&self.q_m.poly);
        v.push(&self.q_c.poly);
        v.push(&self.q_arith.poly);
        v
    }

    /// The arithmetic part of the quotient, point by point over the
    /// size-`4n` coset.
    pub fn compute_quotient(
        &self,
        d4: &Domain,
        w_0_4n: &Vec<u64>,
        w_1_4n: &Vec<u64>,
        w_2_4n: &Vec<u64>,
        w_3_4n: &Vec<u64>,
        pi_4n: &Vec<u64>,
    ) -> (r: Vec<u64>)
        requires
            self.wf_4n(d4.n as nat),
            w_0_4n@.len() == d4.n && is_felt_seq(w_0_4n@),
            w_1_4n@.len() == d4.n && is_felt_seq(w_1_4n@),
            w_2_4n@.len() == d4.n && is_felt_seq(w_2_4n@),
            w_3_4n@.len() == d4.n && is_felt_seq(w_3_4n@),
            pi_4n@.len() == d4.n && is_felt_seq(pi_4n@),
        ensures
            r@.len() == d4.n,
            is_felt_seq(r@),
            forall|i: int|
                0 <= i < d4.n ==> #[trigger] r@[i] == gate_eval(
                    w_0_4n@[i] as int,
                    w_1_4n@[i] as int,
                    w_2_4n@[i] as int,
                    w_3_4n@[i] as int,
                    self.q_0.evals_4n@[i] as int,
                    self.q_1.evals_4n@[i] as int,
                    self.q_2.evals_4n@[i] as int,
                    self.q_3.evals_4n@[i] as int,
                    self.q_m.evals_4n@[i] as int,
                    self.q_c.evals_4n@[i] as int,
                    self.q_arith.evals_4n@[i] as int,
                    pi_4n@[i] as int,
                ),
    {
        let mut out: Vec<u64> = Vec::new();
        let mut i: usize = 0;
        while i < d4.n
            invariant
                self.wf_4n(d4.n as nat),
                w_0_4n@.len() == d4.n && is_felt_seq(w_0_4n@),
                w_1_4n@.len() == d4.n && is_felt_seq(w_1_4n@),
                w_2_4n@.len() == d4.n && is_felt_seq(w_2_4n@),
                w_3_4n@.len() == d4.n && is_felt_seq(w_3_4n@),
                pi_4n@.len() == d4.n && is_felt_seq(pi_4n@),
                i <= d4.n,
                out@.len() == i,
                is_felt_seq(out@),
                forall|j: int|
                    0 <= j < i ==> #[trigger] out@[j] == gate_eval(
                        w_0_4n@[j] as int,
                        w_1_4n@[j] as int,
                        w_2_4n@[j] as int,
                        w_3_4n@[j] as int,
                        self.q_0.evals_4n@[j] as int,
                        self.q_1.evals_4n@[j] as int,
                        self.q_2.evals_4n@[j] as int,
                        self.q_3.evals_4n@[j] as int,
                        self.q_m.evals_4n@[j] as int,
                        self.q_c.evals_4n@[j] as int,
                        self.q_arith.evals_4n@[j] as int,
                        pi_4n@[j] as int,
                    ),
            decreases d4.n - i,
        {
            out.push(
                Self::evaluate(
                    w_0_4n[i],
                    w_1_4n[i],
                    w_2_4n[i],
                    w_3_4n[i],
                    self.q_0.evals_4n[i],
                    self.q_1.evals_4n[i],
                    self.q_2.evals_4n[i],
                    self.q_3.evals_4n[i],
                    self.q_m.evals_4n[i],
                    self.q_c.evals_4n[i],
                    self.q_arith.evals_4n[i],
                    pi_4n[i],
                ),
            );
            i = i + 1;
        }
        out
    }

    /// The arithmetic gate identity at a single point. Zero wherever the
    /// gate switch is zero, whatever the wire values.
    pub fn evaluate(
        w_0: u64,
        w_1: u64,
        w_2: u64,
        w_3: u64,
        q_0: u64,
        q_1: u64,
        q_2: u64,
        q_3: u64,
        q_m: u64,
        q_c: u64,
        q_arith: u64,
        pi: u64,
    ) -> (r: u64)
        requires
            is_felt(w_0),
            is_felt(w_1),
            is_felt(w_2),
            is_felt(w_3),
            is_felt(q_0),
            is_felt(q_1),
            is_felt(q_2),
            is_felt(q_3),
            is_felt(q_m),
            is_felt(q_c),
            is_felt(q_arith),
            is_felt(pi),
        ensures
            is_felt(r),
            r == gate_eval(
                w_0 as int,
                w_1 as int,
                w_2 as int,
                w_3 as int,
                q_0 as int,
                q_1 as int,
                q_2 as int,
                q_3 as int,
                q_m as int,
                q_c as int,
                q_arith as int,
                pi as int,
            ),
            q_arith == 0 ==> r == 0,
    {
        if q_arith == 0 {
            0
        } else {
            let s: u64 = fp_add(
                fp_add(
                    fp_add(
                        fp_add(
                            fp_add(fp_add(fp_mul(q_0, w_0), fp_mul(q_1, w_1)), fp_mul(q_2, w_2)),
                            fp_mul(q_3, w_3),
                        ),
                        fp_mul(fp_mul(q_m, w_1), w_2),
                    ),
                    q_c,
                ),
                pi,
            );
            fp_mul(s, q_arith)
        }
    }
}

/// One factor of the identity-side permutation product:
/// `w + beta * k * x + gamma`.
pub open spec fn id_factor(w: int, k: int, beta: int, gamma: int, x: int) -> int {
    fadd(fadd(w, fmul(beta, fmul(k, x))), gamma)
}

/// One factor of the sigma-side permutation product:
/// `w + beta * sigma + gamma`.
pub open spec fn sigma_factor(w: int, s: int, beta: int, gamma: int) -> int {
    fadd(fadd(w, fmul(beta, s)), gamma)
}

/// The identity-side product over the three permuted wires at `x`.
pub open spec fn id_product(
    w_0: int,
    w_1: int,
    w_2: int,
    k_0: int,
    k_1: int,
    k_2: int,
    beta: int,
    gamma: int,
    x: int,
) -> int {
    fmul(
        fmul(id_factor(w_0, k_0, beta, gamma, x), id_factor(w_1, k_1, beta, gamma, x)),
        id_factor(w_2, k_2, beta, gamma, x),
    )
}

/// The sigma-side product over the three permuted wires.
pub open spec fn sigma_product(
    w_0: int,
    w_1: int,
    w_2: int,
    s_0: int,
    s_1: int,
    s_2: int,
    beta: int,
    gamma: int,
) -> int {
    fmul(
        fmul(sigma_factor(w_0, s_0, beta, gamma), sigma_factor(w_1, s_1, beta, gamma)),
        sigma_factor(w_2, s_2, beta, gamma),
    )
}

/// The permutation quotient term at one point:
/// `alpha * (z * id_product - z_shifted * sigma_product)`.
pub open spec fn perm_term(
    z: int,
    z_shift: int,
    w_0: int,
    w_1: int,
    w_2: int,
    s_0: int,
    s_1: int,
    s_2: int,
    k_0: int,
    k_1: int,
    k_2: int,
    beta: int,
    gamma: int,
    alpha: int,
    x: int,
) -> int {
    fmul(
        alpha,
        fsub(
            fmul(z, id_product(w_0, w_1, w_2, k_0, k_1, k_2, beta, gamma, x)),
            fmul(z_shift, sigma_product(w_0, w_1, w_2, s_0, s_1, s_2, beta, gamma)),
        ),
    )
}

/// One factor of the identity-side product, executably.
pub fn id_factor_exec(w: u64, k: u64, beta: u64, gamma: u64, x: u64) -> (r: u64)
    requires
        is_felt(w),
        is_felt(k),
        is_felt(beta),
        is_felt(gamma),
        is_felt(x),
    ensures
        is_felt(r),
        r == id_factor(w as int, k as int, beta as int, gamma as int, x as int),
{
    fp_add(fp_add(w, fp_mul(beta, fp_mul(k, x))), gamma)
}

/// One factor of the sigma-side product, executably.
pub fn sigma_factor_exec(w: u64, s: u64, beta: u64, gamma: u64) -> (r: u64)
    requires
        is_felt(w),
        is_felt(s),
        is_felt(beta),
        is_felt(gamma),
    ensures
        is_felt(r),
        r == sigma_factor(w as int, s as int, beta as int, gamma as int),
{
    fp_add(fp_add(w, fp_mul(beta, s)), gamma)
}

/// The three permutation columns of the index, one per permuted wire.
pub struct PermutationKey {
    /// Permutation column of wire 0.
    pub sigma_0: SelectorData,
    /// Permutation column of wire 1.
    pub sigma_1: SelectorData,
    /// Permutation column of wire 2.
    pub sigma_2: SelectorData,
}

impl PermutationKey {
    /// Every permutation column carries coset evaluations of length `n4`.
    pub open spec fn wf_4n(&self, n4: nat) -> bool {
        &&& self.sigma_0.evals_4n@.len() == n4 && is_felt_seq(self.sigma_0.evals_4n@)
        &&& self.sigma_1.evals_4n@.len() == n4 && is_felt_seq(self.sigma_1.evals_4n@)
        &&& self.sigma_2.evals_4n@.len() == n4 && is_felt_seq(self.sigma_2.evals_4n@)
    }

    /// The three labeled permutation polynomials, in commitment order.
    pub fn iter(&self) -> (r: Vec<&LabeledPolynomial>)
        ensures
            r@.len() == 3,
            r@[0] == &self.sigma_0.poly,
            r@[1] == &self.sigma_1.poly,
            r@[2] == &self.sigma_2.poly,
    {
        let mut v: Vec<&LabeledPolynomial> = Vec::new();
        v.push(&self.sigma_0.poly);
        v.push(&self.sigma_1.poly);
        v.push(&self.sigma_2.poly);
        v
    }

    /// The permutation part of the quotient, point by point over the
    /// size-`4n` coset.
    pub fn compute_quotient(
        &self,
        d4: &Domain,
        coset4: &Vec<u64>,
        w_0_4n: &Vec<u64>,
        w_1_4n: &Vec<u64>,
        w_2_4n: &Vec<u64>,
        z_4n: &Vec<u64>,
        z_shift_4n: &Vec<u64>,
        beta: u64,
        gamma: u64,
        alpha: u64,
        ks: &[u64; 4],
    ) -> (r: Vec<u64>)
        requires
            self.wf_4n(d4.n as nat),
            coset4@.len() == d4.n && is_felt_seq(coset4@),
            w_0_4n@.len() == d4.n && is_felt_seq(w_0_4n@),
            w_1_4n@.len() == d4.n && is_felt_seq(w_1_4n@),
            w_2_4n@.len() == d4.n && is_felt_seq(w_2_4n@),
            z_4n@.len() == d4.n && is_felt_seq(z_4n@),
            z_shift_4n@.len() == d4.n && is_felt_seq(z_shift_4n@),
            is_felt(beta),
            is_felt(gamma),
            is_felt(alpha),
            forall|c: int| 0 <= c < 4 ==> is_felt(#[trigger] ks@[c]),
        ensures
            r@.len() == d4.n,
            is_felt_seq(r@),
            forall|i: int|
                0 <= i < d4.n ==> #[trigger] r@[i] == perm_term(
                    z_4n@[i] as int,
                    z_shift_4n@[i] as int,
                    w_0_4n@[i] as int,
                    w_1_4n@[i] as int,
                    w_2_4n@[i] as int,
                    self.sigma_0.evals_4n@[i] as int,
                    self.sigma_1.evals_4n@[i] as int,
                    self.sigma_2.evals_4n@[i] as int,
                    ks@[0] as int,
                    ks@[1] as int,
                    ks@[2] as int,
                    beta as int,
                    gamma as int,
                    alpha as int,
                    coset4@[i] as int,
                ),
    {
        let mut out: Vec<u64> = Vec::new();
        let mut i: usize = 0;
        while i < d4.n
            invariant
                self.wf_4n(d4.n as nat),
                coset4@.len() == d4.n && is_felt_seq(coset4@),
                w_0_4n@.len() == d4.n && is_felt_seq(w_0_4n@),
                w_1_4n@.len() == d4.n && is_felt_seq(w_1_4n@),
                w_2_4n@.len() == d4.n && is_felt_seq(w_2_4n@),
                z_4n@.len() == d4.n && is_felt_seq(z_4n@),
                z_shift_4n@.len() == d4.n && is_felt_seq(z_shift_4n@),
                is_felt(beta),
                is_felt(gamma),
                is_felt(alpha),
                forall|c: int| 0 <= c < 4 ==> is_felt(#[trigger] ks@[c]),
                i <= d4.n,
                out@.len() == i,
                is_felt_seq(out@),
                forall|j: int|
                    0 <= j < i ==> #[trigger] out@[j] == perm_term(
                        z_4n@[j] as int,
                        z_shift_4n@[j] as int,
                        w_0_4n@[j] as int,
                        w_1_4n@[j] as int,
                        w_2_4n@[j] as int,
                        self.sigma_0.evals_4n@[j] as int,
                        self.sigma_1.evals_4n@[j] as int,
                        self.sigma_2.evals_4n@[j] as int,
                        ks@[0] as int,
                        ks@[1] as int,
                        ks@[2] as int,
                        beta as int,
                        gamma as int,
                        alpha as int,
                        coset4@[j] as int,
                    ),
            decreases d4.n - i,
        {
            let x: u64 = coset4[i];
            let a: u64 = fp_mul(
                fp_mul(
                    id_factor_exec(w_0_4n[i], ks[0], beta, gamma, x),
                    id_factor_exec(w_1_4n[i], ks[1], beta, gamma, x),
                ),
                id_factor_exec(w_2_4n[i], ks[2], beta, gamma, x),
            );
            let b: u64 = fp_mul(
                fp_mul(
                    sigma_factor_exec(w_0_4n[i], self.sigma_0.evals_4n[i], beta, gamma),
                    sigma_factor_exec(w_1_4n[i], self.sigma_1.evals_4n[i], beta, gamma),
                ),
                sigma_factor_exec(w_2_4n[i], self.sigma_2.evals_4n[i], beta, gamma),
            );
            let term: u64 = fp_mul(
                alpha,
                crate::field::fp_sub(fp_mul(z_4n[i], a), fp_mul(z_shift_4n[i], b)),
            );
            out.push(term);
            i = i + 1;
        }
        out
    }
}

/// The permutation image of position `(col, i)`: the identity tag of the
/// position it is mapped to, a wire tag times a domain point. Rows past
/// the circuit's own `m` gates are padding and map to themselves.
pub open spec fn sigma_point(
    perm: Seq<usize>,
    ks: Seq<u64>,
    g: int,
    m: nat,
    col: int,
    i: int,
) -> int {
    if i < m {
        let p = perm[col * m + i] as int;
        fmul(ks[p / m as int] as int, fpow(g, (p % m as int) as nat))
    } else {
        fmul(ks[col] as int, fpow(g, i as nat))
    }
}

/// The whole permutation column `col` over the padded domain.
pub open spec fn sigma_evals(
    perm: Seq<usize>,
    ks: Seq<u64>,
    g: int,
    m: nat,
    n: nat,
    col: int,
) -> Seq<u64> {
    Seq::new(n, |i: int| sigma_point(perm, ks, g, m, col, i) as u64)
}

/// Builds one permutation column's domain evaluations from the wire
/// permutation table.
fn build_sigma_col(
    perm: &Vec<usize>,
    ks: &[u64; 4],
    g: u64,
    gpows: &Vec<u64>,
    m: usize,
    n: usize,
    col: usize,
) -> (r: Vec<u64>)
    requires
        1 <= m <= n,
        col < PERMUTED_WIRES,
        perm@.len() == PERMUTED_WIRES * m,
        forall|j: int| 0 <= j < perm@.len() ==> (#[trigger] perm@[j]) < PERMUTED_WIRES * m,
        forall|c: int| 0 <= c < 4 ==> is_felt(#[trigger] ks@[c]),
        gpows@.len() == n,
        is_felt_seq(gpows@),
        forall|i: int| 0 <= i < n ==> #[trigger] gpows@[i] == fpow(g as int, i as nat),
    ensures
        r@.len() == n,
        is_felt_seq(r@),
        r@ == sigma_evals(perm@, ks@, g as int, m as nat, n as nat, col as int),
{
    let pl: usize = perm.len();
    let mut out: Vec<u64> = Vec::new();
    let mut i: usize = 0;
    while i < n
        invariant
            1 <= m <= n,
            col < PERMUTED_WIRES,
            perm@.len() <= usize::MAX,
            perm@.len() == PERMUTED_WIRES * m,
            forall|j: int| 0 <= j < perm@.len() ==> (#[trigger] perm@[j]) < PERMUTED_WIRES * m,
            forall|c: int| 0 <= c < 4 ==> is_felt(#[trigger] ks@[c]),
            gpows@.len() == n,
            is_felt_seq(gpows@),
            forall|k: int| 0 <= k < n ==> #[trigger] gpows@[k] == fpow(g as int, k as nat),
            i <= n,
            out@.len() == i,
            is_felt_seq(out@),
            forall|j: int|
                0 <= j < i ==> #[trigger] out@[j] == sigma_point(
                    perm@,
                    ks@,
                    g as int,
                    m as nat,
                    col as int,
                    j,
                ) as u64,
        decreases n - i,
    {
        if i < m {
            proof {
                assert(col * m + i < PERMUTED_WIRES * m) by (nonlinear_arith)
                    requires
                        col < PERMUTED_WIRES,
                        i < m,
                        PERMUTED_WIRES == 3,
                ;
            }
            let p: usize = perm[col * m + i];
            proof {
                assert(p / m < 3) by (nonlinear_arith)
                    requires
                        p < 3 * m,
                        m >= 1,
                ;
                assert(p % m < m) by (nonlinear_arith)
                    requires
                        m >= 1,
                ;
            }
            out.push(fp_mul(ks[p / m], gpows[p % m]));
        } else {
            out.push(fp_mul(ks[col], gpows[i]));
        }
        i = i + 1;
    }
    proof {
        assert(out@ =~= sigma_evals(perm@, ks@, g as int, m as nat, n as nat, col as int));
    }
    out
}

/// Length and residue well-formedness of one indexed column.
pub open spec fn selector_wf(sd: &SelectorData, n: nat, n4: nat) -> bool {
    &&& sd.poly.wf()
    &&& sd.poly.poly_view().len() == n
    &&& sd.evals_n@.len() == n
    &&& is_felt_seq(sd.evals_n@)
    &&& sd.evals_4n@.len() == n4
    &&& is_felt_seq(sd.evals_4n@)
}

/// Everything `keygen` hands the prover: the two keys, the two domains,
/// the wire tags and the size metadata.
pub struct PreprocessorKeys {
    /// Circuit-size metadata.
    pub info: IndexInfo,
    /// The size-`n` domain.
    pub domain_n: Domain,
    /// The size-`4n` domain carrying the coset evaluations.
    pub domain_4n: Domain,
    /// The four wire identity tags; the first three key the permutation.
    pub ks: [u64; 4],
    /// The arithmetic selector columns.
    pub arithmetic: ArithmeticKey,
    /// The permutation columns.
    pub permutation: PermutationKey,
}

impl PreprocessorKeys {
    /// Domains are genuine, sizes are consistent, and every column has
    /// its three representations at the right lengths.
    pub open spec fn wf(&self) -> bool {
        &&& self.domain_n.wf()
        &&& self.domain_n.n == self.info.n
        &&& self.domain_4n.wf()
        &&& self.domain_4n.n == 4 * self.info.n
        &&& forall|c: int| 0 <= c < 4 ==> is_felt(#[trigger] self.ks@[c])
        &&& selector_wf(&self.arithmetic.q_0, self.info.n as nat, 4 * self.info.n as nat)
        &&& selector_wf(&self.arithmetic.q_1, self.info.n as nat, 4 * self.info.n as nat)
        &&& selector_wf(&self.arithmetic.q_2, self.info.n as nat, 4 * self.info.n as nat)
        &&& selector_wf(&self.arithmetic.q_3, self.info.n as nat, 4 * self.info.n as nat)
        &&& selector_wf(&self.arithmetic.q_m, self.info.n as nat, 4 * self.info.n as nat)
        &&& selector_wf(&self.arithmetic.q_c, self.info.n as nat, 4 * self.info.n as nat)
        &&& selector_wf(&self.arithmetic.q_arith, self.info.n as nat, 4 * self.info.n as nat)
        &&& selector_wf(&self.permutation.sigma_0, self.info.n as nat, 4 * self.info.n as nat)
        &&& selector_wf(&self.permutation.sigma_1, self.info.n as nat, 4 * self.info.n as nat)
        &&& selector_wf(&self.permutation.sigma_2, self.info.n as nat, 4 * self.info.n as nat)
    }

    /// The index faithfully represents circuit `cs` with tags `ks`:
    /// every selector column is the interpolated padded column, and every
    /// permutation column is the tagged image of the wire permutation.
    pub open spec fn indexes(&self, cs: &Composer, ks: [u64; 4]) -> bool {
        &&& self.ks@ == ks@
        &&& self.info.n_pi == cs.size_spec()
        &&& cs.size_spec() <= self.info.n
        &&& self.arithmetic.q_0.poly.label_view() == "q_0"@
        &&& self.arithmetic.q_1.poly.label_view() == "q_1"@
        &&& self.arithmetic.q_2.poly.label_view() == "q_2"@
        &&& self.arithmetic.q_3.poly.label_view() == "q_3"@
        &&& self.arithmetic.q_m.poly.label_view() == "q_m"@
        &&& self.arithmetic.q_c.poly.label_view() == "q_c"@
        &&& self.arithmetic.q_arith.poly.label_view() == "q_arith"@
        &&& self.permutation.sigma_0.poly.label_view() == "sigma_0"@
        &&& self.permutation.sigma_1.poly.label_view() == "sigma_1"@
        &&& self.permutation.sigma_2.poly.label_view() == "sigma_2"@
        &&& selector_ok(&self.arithmetic.q_0, cs.q_0@, self.domain_n, self.domain_4n)
        &&& selector_ok(&self.arithmetic.q_1, cs.q_1@, self.domain_n, self.domain_4n)
        &&& selector_ok(&self.arithmetic.q_2, cs.q_2@, self.domain_n, self.domain_4n)
        &&& selector_ok(&self.arithmetic.q_3, cs.q_3@, self.domain_n, self.domain_4n)
        &&& selector_ok(&self.arithmetic.q_m, cs.q_m@, self.domain_n, self.domain_4n)
        &&& selector_ok(&self.arithmetic.q_c, cs.q_c@, self.domain_n, self.domain_4n)
        &&& selector_ok(&self.arithmetic.q_arith, cs.q_arith@, self.domain_n, self.domain_4n)
        &&& selector_ok(
            &self.permutation.sigma_0,
            sigma_evals(
                cs.perm@,
                ks@,
                self.domain_n.g as int,
                cs.size_spec(),
                self.info.n as nat,
                0,
            ),
            self.domain_n,
            self.domain_4n,
        )
        &&& selector_ok(
            &self.permutation.sigma_1,
            sigma_evals(
                cs.perm@,
                ks@,
                self.domain_n.g as int,
                cs.size_spec(),
                self.info.n as nat,
                1,
            ),
            self.domain_n,
            self.domain_4n,
        )
        &&& selector_ok(
            &self.permutation.sigma_2,
            sigma_evals(
                cs.perm@,
                ks@,
                self.domain_n.g as int,
                cs.size_spec(),
                self.info.n as nat,
                2,
            ),
            self.domain_n,
            self.domain_4n,
        )
    }

    /// Compiles the circuit into its index: pads every column to the next
    /// power of two, interpolates it, and evaluates it on the `4n` coset.
    pub fn generate(cs: &Composer, ks: [u64; 4]) -> (r: Result<PreprocessorKeys, Error>)
        requires
            cs.wf(),
            forall|c: int| 0 <= c < 4 ==> is_felt(#[trigger] ks@[c]),
        ensures
            r is Ok <==> 0 < cs.size_spec() <= 0x1000000 && crate::domain::domain_ok(
                crate::domain::next_pow2(cs.size_spec()) as int,
            ) && crate::domain::domain_ok(4 * crate::domain::next_pow2(cs.size_spec()) as int),
            r == Result::<PreprocessorKeys, Error>::Err(Error::AssignmentMissing)
                <==> cs.size_spec() == 0,
            r == Result::<PreprocessorKeys, Error>::Err(Error::CircuitTooLarge) <==> cs.size_spec()
                > 0x1000000,
            r == Result::<PreprocessorKeys, Error>::Err(Error::ArithmeticFailure) <==> 0
                < cs.size_spec() <= 0x1000000 && !(crate::domain::domain_ok(
                crate::domain::next_pow2(cs.size_spec()) as int,
            ) && crate::domain::domain_ok(4 * crate::domain::next_pow2(cs.size_spec()) as int)),
            r matches Ok(k) ==> k.wf() && k.indexes(cs, ks) && k.info.n
                == crate::domain::next_pow2(cs.size_spec()) && crate::domain::is_power_of_two(
                k.info.n as nat,
            ) && (cs.size_spec() > 1 ==> k.info.n < 2 * cs.size_spec()) && k.domain_n.g
                == crate::domain::domain_gen(k.info.n as int) && k.domain_n.g_inv == crate::field::finv(
                k.domain_n.g as int,
            ) && k.domain_n.n_inv == crate::field::finv(k.info.n as int) && k.domain_4n.g
                == crate::domain::domain_gen(4 * k.info.n as int) && k.domain_4n.g_inv
                == crate::field::finv(k.domain_4n.g as int) && k.domain_4n.n_inv
                == crate::field::finv(4 * k.info.n as int),
    {
        let m: usize = cs.size();
        if m == 0 {
            return Err(Error::AssignmentMissing);
        }
        if m > 0x1000000 {
            return Err(Error::CircuitTooLarge);
        }
        let mut n: usize = 1;
        while n < m
            invariant
                m >= 1,
                m <= 0x1000000,
                1 <= n,
                n <= 2 * m,
                crate::domain::is_power_of_two(n as nat),
                crate::domain::next_pow2_from(n as nat, m as nat) == crate::domain::next_pow2(
                    m as nat,
                ),
                n == 1 || n < 2 * m && n / 2 < m,
            decreases 2 * m - n,
        {
            proof {
                assert(crate::domain::is_power_of_two((2 * n) as nat));
            }
            n = n * 2;
        }
        assert(n == crate::domain::next_pow2(m as nat));
        let dn: Domain = match Domain::new(n) {
            Some(d) => d,
            None => {
                return Err(Error::ArithmeticFailure);
            },
        };
        proof {
            assert(crate::domain::is_power_of_two((2 * n) as nat));
            assert(crate::domain::is_power_of_two((4 * n) as nat));
        }
        let d4: Domain = match Domain::new(4 * n) {
            Some(d) => d,
            None => {
                return Err(Error::ArithmeticFailure);
            },
        };
        let coset4: Vec<u64> = d4.coset_elements(MULT_GEN);
        let gpows: Vec<u64> = powers_of(dn.g, n);
        let s0: Vec<u64> = build_sigma_col(&cs.perm, &ks, dn.g, &gpows, m, n, 0);
        let s1: Vec<u64> = build_sigma_col(&cs.perm, &ks, dn.g, &gpows, m, n, 1);
        let s2: Vec<u64> = build_sigma_col(&cs.perm, &ks, dn.g, &gpows, m, n, 2);
        let arithmetic: ArithmeticKey = ArithmeticKey {
            q_0: make_selector(&cs.q_0, "q_0".to_owned(), &dn, &d4, &coset4),
            q_1: make_selector(&cs.q_1, "q_1".to_owned(), &dn, &d4, &coset4),
            q_2: make_selector(&cs.q_2, "q_2".to_owned(), &dn, &d4, &coset4),
            q_3: make_selector(&cs.q_3, "q_3".to_owned(), &dn, &d4, &coset4),
            q_m: make_selector(&cs.q_m, "q_m".to_owned(), &dn, &d4, &coset4),
            q_c: make_selector(&cs.q_c, "q_c".to_owned(), &dn, &d4, &coset4),
            q_arith: make_selector(&cs.q_arith, "q_arith".to_owned(), &dn, &d4, &coset4),
        };
        let permutation: PermutationKey = PermutationKey {
            sigma_0: make_selector(&s0, "sigma_0".to_owned(), &dn, &d4, &coset4),
            sigma_1: make_selector(&s1, "sigma_1".to_owned(), &dn, &d4, &coset4),
            sigma_2: make_selector(&s2, "sigma_2".to_owned(), &dn, &d4, &coset4),
        };
        proof {
            assert(padded(s0@, n as nat) =~= s0@);
            assert(padded(s1@, n as nat) =~= s1@);
            assert(padded(s2@, n as nat) =~= s2@);
        }
        Ok(
            PreprocessorKeys {
                info: IndexInfo { n, n_pi: m },
                domain_n: dn,
                domain_4n: d4,
                ks,
                arithmetic,
                permutation,
            },
        )
    }

    /// The degree the commitment key must support for this index.
    pub fn size(&self) -> (r: usize)
        ensures
            r == self.info.n,
    {
        self.info.n
    }

    /// The circuit-size metadata.
    pub fn info(&self) -> (r: IndexInfo)
        ensures
            r == self.info,
    {
        self.info
    }

    /// All ten labeled index polynomials, in commitment order: the seven
    /// selectors, then the three permutation columns.
    pub fn iter(&self) -> (r: Vec<&LabeledPolynomial>)
        ensures
            r@.len() == 10,
            r@[0] == &self.arithmetic.q_0.poly,
            r@[1] == &self.arithmetic.q_1.poly,
            r@[2] == &self.arithmetic.q_2.poly,
            r@[3] == &self.arithmetic.q_3.poly,
            r@[4] == &self.arithmetic.q_m.poly,
            r@[5] == &self.arithmetic.q_c.poly,
            r@[6] == &self.arithmetic.q_arith.poly,
            r@[7] == &self.permutation.sigma_0.poly,
            r@[8] == &self.permutation.sigma_1.poly,
            r@[9] == &self.permutation.sigma_2.poly,
    {
        let mut v: Vec<&LabeledPolynomial> = self.arithmetic.iter();
        v.push(&self.permutation.sigma_0.poly);
        v.push(&self.permutation.sigma_1.poly);
        v.push(&self.permutation.sigma_2.poly);
        v
    }
}

} // verus!
