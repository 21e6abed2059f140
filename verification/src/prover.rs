//! The prover's round engine: wire polynomials in the first round, the
//! permutation accumulator in the second, the chunked quotient in the
//! third, and the final evaluation of every oracle at the verifier's
//! query point.
//!
//! Each round is a fixed function of the witness, the index and the
//! challenges received so far; nothing here draws randomness, which is
//! what makes two runs over the same data byte-identical.
use vstd::prelude::*;

use crate::composer::Composer;
use crate::domain::{evals_at, idft_coeff, pad_to, Domain};
use crate::field::{
    fadd, finv, fmul, fp_add, fp_inv, fp_mul, fp_pow, fp_sub, fpow, fsub, inv_ok, is_felt,
    MULT_GEN,
};
use crate::indexer::{
    coset_point, gate_eval, id_product, padded, perm_term, sigma_product, ArithmeticKey,
    PreprocessorKeys,
};
use crate::poly::{is_felt_seq, poly_eval, DensePoly, LabeledPolynomial};
use crate::rounds::{FirstMsg, SecondMsg, ThirdMsg, Evaluations};
use crate::Error;

verus! {

/// The interpolant's coefficients for evaluations over domain `d`.
pub open spec fn interp_coeffs(evals: Seq<u64>, d: Domain) -> Seq<u64> {
    Seq::new(d.n as nat, |j: int| idft_coeff(evals, d.g_inv as int, d.n_inv as int, j as nat) as u64)
}

/// The first round's oracle polynomials: one wire polynomial per column.
pub struct FirstOracles {
    /// Wire polynomial 0.
    pub w_0: LabeledPolynomial,
    /// Wire polynomial 1.
    pub w_1: LabeledPolynomial,
    /// Wire polynomial 2.
    pub w_2: LabeledPolynomial,
    /// Wire polynomial 3.
    pub w_3: LabeledPolynomial,
}

impl FirstOracles {
    /// The four wire polynomials, in commitment order.
    pub fn iter(&self) -> (r: Vec<&LabeledPolynomial>)
        ensures
            r@.len() == 4,
            r@[0] == &self.w_0,
            r@[1] == &self.w_1,
            r@[2] == &self.w_2,
            r@[3] == &self.w_3,
    {
        let mut v: Vec<&LabeledPolynomial> = Vec::new();
        v.push(&self.w_0);
        v.push(&self.w_1);
        v.push(&self.w_2);
        v.push(&self.w_3);
        v
    }
}

/// The second round's oracle: the permutation accumulator.
pub struct SecondOracles {
    /// The running-product accumulator polynomial.
    pub z: LabeledPolynomial,
}

impl SecondOracles {
    /// The accumulator, as a one-element batch.
    pub fn iter(&self) -> (r: Vec<&LabeledPolynomial>)
        ensures
            r@.len() == 1,
            r@[0] == &self.z,
    {
        let mut v: Vec<&LabeledPolynomial> = Vec::new();
        v.push(&self.z);
        v
    }
}

/// The third round's oracle: the quotient, split into four degree-bounded
/// chunks.
pub struct ThirdOracles {
    /// Quotient chunk 0, the low-order coefficients.
    pub t_0: LabeledPolynomial,
    /// Quotient chunk 1.
    pub t_1: LabeledPolynomial,
    /// Quotient chunk 2.
    pub t_2: LabeledPolynomial,
    /// Quotient chunk 3, the high-order coefficients.
    pub t_3: LabeledPolynomial,
}

impl ThirdOracles {
    /// The four quotient chunks, in commitment order.
    pub fn iter(&self) -> (r: Vec<&LabeledPolynomial>)
        ensures
            r@.len() == 4,
            r@[0] == &self.t_0,
            r@[1] == &self.t_1,
            r@[2] == &self.t_2,
            r@[3] == &self.t_3,
    {
        let mut v: Vec<&LabeledPolynomial> = Vec::new();
        v.push(&self.t_0);
        v.push(&self.t_1);
        v.push(&self.t_2);
        v.push(&self.t_3);
        v
    }
}

/// One in-flight proof session on the prover's side.
pub struct Prover {
    /// The size-`n` domain, copied from the index.
    pub domain_n: Domain,
    /// The size-`4n` domain, copied from the index.
    pub domain_4n: Domain,
    /// The wire identity tags, copied from the index.
    pub ks: [u64; 4],
    /// The points of the `4n` coset, precomputed.
    pub coset4: Vec<u64>,
    /// Witness column 0, padded to the domain.
    pub w_0_n: Vec<u64>,
    /// Witness column 1, padded to the domain.
    pub w_1_n: Vec<u64>,
    /// Witness column 2, padded to the domain.
    pub w_2_n: Vec<u64>,
    /// Witness column 3, padded to the domain.
    pub w_3_n: Vec<u64>,
    /// Public input, padded to the domain.
    pub pi_n: Vec<u64>,
    /// Coset evaluations of the public-input polynomial.
    pub pi_4n: Vec<u64>,
    /// Coset evaluations of wire polynomial 0; filled by the first round.
    pub w_0_4n: Vec<u64>,
    /// Coset evaluations of wire polynomial 1; filled by the first round.
    pub w_1_4n: Vec<u64>,
    /// Coset evaluations of wire polynomial 2; filled by the first round.
    pub w_2_4n: Vec<u64>,
    /// Coset evaluations of wire polynomial 3; filled by the first round.
    pub w_3_4n: Vec<u64>,
    /// Coset evaluations of the accumulator; filled by the second round.
    pub z_4n: Vec<u64>,
    /// Coset evaluations of the shifted accumulator; second round.
    pub z_shift_4n: Vec<u64>,
    /// Permutation challenge, recorded by the second round.
    pub beta: Option<u64>,
    /// Permutation challenge, recorded by the second round.
    pub gamma: Option<u64>,
    /// Combination challenge, recorded by the third round.
    pub alpha: Option<u64>,
}

impl Prover {
    /// The session's structural invariant: domains are genuine and every
    /// stored vector has its domain's length and reduced entries.
    pub open spec fn wf(&self) -> bool {
        &&& self.domain_n.wf()
        &&& self.domain_4n.wf()
        &&& self.domain_4n.n == 4 * self.domain_n.n
        &&& forall|c: int| 0 <= c < 4 ==> is_felt(#[trigger] self.ks@[c])
        &&& self.coset4@.len() == self.domain_4n.n
        &&& is_felt_seq(self.coset4@)
        &&& forall|i: int|
            0 <= i < self.domain_4n.n ==> #[trigger] self.coset4@[i] == coset_point(
                self.domain_4n.g as int,
                i,
            )
        &&& self.w_0_n@.len() == self.domain_n.n && is_felt_seq(self.w_0_n@)
        &&& self.w_1_n@.len() == self.domain_n.n && is_felt_seq(self.w_1_n@)
        &&& self.w_2_n@.len() == self.domain_n.n && is_felt_seq(self.w_2_n@)
        &&& self.w_3_n@.len() == self.domain_n.n && is_felt_seq(self.w_3_n@)
        &&& self.pi_n@.len() == self.domain_n.n && is_felt_seq(self.pi_n@)
        &&& self.pi_4n@.len() == self.domain_4n.n && is_felt_seq(self.pi_4n@)
        &&& (self.beta matches Some(b) ==> is_felt(b))
        &&& (self.gamma matches Some(g) ==> is_felt(g))
        &&& (self.alpha matches Some(a) ==> is_felt(a))
    }

    /// The coset wire evaluations are present and well-formed (after the
    /// first round).
    pub open spec fn wires_ready(&self) -> bool {
        &&& self.w_0_4n@.len() == self.domain_4n.n && is_felt_seq(self.w_0_4n@)
        &&& self.w_1_4n@.len() == self.domain_4n.n && is_felt_seq(self.w_1_4n@)
        &&& self.w_2_4n@.len() == self.domain_4n.n && is_felt_seq(self.w_2_4n@)
        &&& self.w_3_4n@.len() == self.domain_4n.n && is_felt_seq(self.w_3_4n@)
    }

    /// The accumulator evaluations are present and well-formed (after the
    /// second round).
    pub open spec fn accumulator_ready(&self) -> bool {
        &&& self.z_4n@.len() == self.domain_4n.n && is_felt_seq(self.z_4n@)
        &&& self.z_shift_4n@.len() == self.domain_4n.n && is_felt_seq(self.z_shift_4n@)
    }

    /// The session belongs to this index: same domains and tags.
    pub open spec fn consistent_with(&self, keys: &PreprocessorKeys) -> bool {
        &&& self.domain_n == keys.domain_n
        &&& self.domain_4n == keys.domain_4n
        &&& self.ks@ == keys.ks@
    }

    /// The fields set at initialization, unchanged by a round.
    pub open spec fn base_unchanged(a: &Prover, b: &Prover) -> bool {
        &&& a.domain_n == b.domain_n
        &&& a.domain_4n == b.domain_4n
        &&& a.ks@ == b.ks@
        &&& a.coset4@ == b.coset4@
        &&& a.w_0_n@ == b.w_0_n@
        &&& a.w_1_n@ == b.w_1_n@
        &&& a.w_2_n@ == b.w_2_n@
        &&& a.w_3_n@ == b.w_3_n@
        &&& a.pi_n@ == b.pi_n@
        &&& a.pi_4n@ == b.pi_4n@
    }

    /// Opens a proof session: pads the witness columns and the public
    /// input to the domain and precomputes the coset points and the
    /// public-input coset evaluations.
    pub fn init(cs: &Composer, keys: &PreprocessorKeys) -> (r: Result<Prover, Error>)
        requires
            cs.wf(),
            keys.wf(),
            cs.size_spec() <= keys.info.n,
        ensures
            r matches Ok(p) ==> p.wf() && p.consistent_with(keys) && p.w_0_n@ == padded(
                cs.w_0@,
                keys.info.n as nat,
            ) && p.w_1_n@ == padded(cs.w_1@, keys.info.n as nat) && p.w_2_n@ == padded(
                cs.w_2@,
                keys.info.n as nat,
            ) && p.w_3_n@ == padded(cs.w_3@, keys.info.n as nat) && p.pi_n@ == padded(
                cs.pi@,
                keys.info.n as nat,
            ) && (forall|i: int|
                0 <= i < keys.domain_4n.n ==> #[trigger] p.pi_4n@[i] == poly_eval(
                    interp_coeffs(padded(cs.pi@, keys.info.n as nat), keys.domain_n),
                    coset_point(keys.domain_4n.g as int, i),
                )) && p.beta is None && p.gamma is None && p.alpha is None && p.w_0_4n@.len() == 0
                && p.z_4n@.len() == 0,
            r is Ok,
    {
        let n: usize = keys.info.n;
        let w_0_n: Vec<u64> = pad_to(&cs.w_0, n);
        let w_1_n: Vec<u64> = pad_to(&cs.w_1, n);
        let w_2_n: Vec<u64> = pad_to(&cs.w_2, n);
        let w_3_n: Vec<u64> = pad_to(&cs.w_3, n);
        let pi_n: Vec<u64> = pad_to(&cs.pi, n);
        proof {
            assert(w_0_n@ =~= padded(cs.w_0@, n as nat));
            assert(w_1_n@ =~= padded(cs.w_1@, n as nat));
            assert(w_2_n@ =~= padded(cs.w_2@, n as nat));
            assert(w_3_n@ =~= padded(cs.w_3@, n as nat));
            assert(pi_n@ =~= padded(cs.pi@, n as nat));
        }
        let coset4: Vec<u64> = keys.domain_4n.coset_elements(MULT_GEN);
        let pi_poly: DensePoly = keys.domain_n.interpolate(&pi_n);
        proof {
            assert(pi_poly.coeffs@ =~= interp_coeffs(pi_n@, keys.domain_n));
        }
        let pi_4n: Vec<u64> = evals_at(&pi_poly, &coset4);
        Ok(
            Prover {
                domain_n: keys.domain_n,
                domain_4n: keys.domain_4n,
                ks: keys.ks,
                coset4,
                w_0_n,
                w_1_n,
                w_2_n,
                w_3_n,
                pi_n,
                pi_4n,
                w_0_4n: Vec::new(),
                w_1_4n: Vec::new(),
                w_2_4n: Vec::new(),
                w_3_4n: Vec::new(),
                z_4n: Vec::new(),
                z_shift_4n: Vec::new(),
                beta: None,
                gamma: None,
                alpha: None,
            },
        )
    }

    /// The padded public input, as the orchestrator seeds the transcript
    /// with it.
    pub fn public_input(&self) -> (r: Vec<u64>)
        ensures
            r@ == self.pi_n@,
    {
        crate::domain::clone_u64_vec(&self.pi_n)
    }

    /// First round: interpolates each padded witness column into a wire
    /// polynomial, keeps the coset evaluations, and hands the four wire
    /// polynomials out as the round's oracles.
    pub fn first_round(&mut self) -> (r: Result<FirstOracles, Error>)
        requires
            old(self).wf(),
        ensures
            final(self).wf(),
            r is Ok <==> old(self).w_0_4n@.len() == 0,
            r is Err ==> r == Result::<FirstOracles, Error>::Err(Error::OutOfOrder) && *final(self)
                == *old(self),
            r matches Ok(o) ==> Self::base_unchanged(old(self), final(self)) && final(self).wires_ready()
                && final(self).z_4n@ == old(self).z_4n@ && final(self).z_shift_4n@ == old(self).z_shift_4n@ && final(self).beta == old(self).beta && final(self).gamma == old(self).gamma && final(self).alpha == old(self).alpha && o.w_0.wf() && o.w_1.wf() && o.w_2.wf()
                && o.w_3.wf() && o.w_0.poly_view() == interp_coeffs(
                old(self).w_0_n@,
                old(self).domain_n,
            ) && o.w_1.poly_view() == interp_coeffs(old(self).w_1_n@, old(self).domain_n)
                && o.w_2.poly_view() == interp_coeffs(old(self).w_2_n@, old(self).domain_n)
                && o.w_3.poly_view() == interp_coeffs(old(self).w_3_n@, old(self).domain_n)
                && o.w_0.label_view() == "w_0"@ && o.w_1.label_view() == "w_1"@
                && o.w_2.label_view() == "w_2"@ && o.w_3.label_view() == "w_3"@ && (forall|i: int|
                0 <= i < final(self).domain_4n.n ==> #[trigger] final(self).w_0_4n@[i] == poly_eval(
                    o.w_0.poly_view(),
                    final(self).coset4@[i] as int,
                )) && (forall|i: int|
                0 <= i < final(self).domain_4n.n ==> #[trigger] final(self).w_1_4n@[i] == poly_eval(
                    o.w_1.poly_view(),
                    final(self).coset4@[i] as int,
                )) && (forall|i: int|
                0 <= i < final(self).domain_4n.n ==> #[trigger] final(self).w_2_4n@[i] == poly_eval(
                    o.w_2.poly_view(),
                    final(self).coset4@[i] as int,
                )) && (forall|i: int|
                0 <= i < final(self).domain_4n.n ==> #[trigger] final(self).w_3_4n@[i] == poly_eval(
                    o.w_3.poly_view(),
                    final(self).coset4@[i] as int,
                )),
    {
        if self.w_0_4n.len() != 0 {
            return Err(Error::OutOfOrder);
        }
        let p0: DensePoly = self.domain_n.interpolate(&self.w_0_n);
        let p1: DensePoly = self.domain_n.interpolate(&self.w_1_n);
        let p2: DensePoly = self.domain_n.interpolate(&self.w_2_n);
        let p3: DensePoly = self.domain_n.interpolate(&self.w_3_n);
        proof {
            assert(p0.coeffs@ =~= interp_coeffs(self.w_0_n@, self.domain_n));
            assert(p1.coeffs@ =~= interp_coeffs(self.w_1_n@, self.domain_n));
            assert(p2.coeffs@ =~= interp_coeffs(self.w_2_n@, self.domain_n));
            assert(p3.coeffs@ =~= interp_coeffs(self.w_3_n@, self.domain_n));
        }
        self.w_0_4n = evals_at(&p0, &self.coset4);
        self.w_1_4n = evals_at(&p1, &self.coset4);
        self.w_2_4n = evals_at(&p2, &self.coset4);
        self.w_3_4n = evals_at(&p3, &self.coset4);
        Ok(
            FirstOracles {
                w_0: LabeledPolynomial::new_owned("w_0".to_owned(), p0),
                w_1: LabeledPolynomial::new_owned("w_1".to_owned(), p1),
                w_2: LabeledPolynomial::new_owned("w_2".to_owned(), p2),
                w_3: LabeledPolynomial::new_owned("w_3".to_owned(), p3),
            },
        )
    }

    /// Second round: builds the permutation accumulator by the running
    /// product recurrence `z(1) = 1`,
    /// `z(g^(i+1)) = z(g^i) * id_product(i) / sigma_product(i)`,
    /// interpolates it and keeps its coset evaluations, plain and
    /// shifted by the domain generator.
    #[verifier::rlimit(100)]
    #[verifier::spinoff_prover]
    pub fn second_round(&mut self, msg: &FirstMsg, keys: &PreprocessorKeys) -> (r: Result<
        SecondOracles,
        Error,
    >)
        requires
            old(self).wf(),
            keys.wf(),
            old(self).consistent_with(keys),
            is_felt(msg.beta),
            is_felt(msg.gamma),
        ensures
            final(self).wf(),
            r is Ok <==> (old(self).beta is None && old(self).gamma is None && old(
                self,
            ).w_0_4n@.len() != 0 && (forall|j: int|
                0 <= j < old(self).domain_n.n - 1 ==> inv_ok(
                    #[trigger] acc_den_at(old(self), keys, msg.beta as int, msg.gamma as int, j),
                ))),
            r == Result::<SecondOracles, Error>::Err(Error::ArithmeticFailure) <==> (old(
                self,
            ).beta is None && old(self).gamma is None && old(self).w_0_4n@.len() != 0 && !(forall|
                j: int,
            |
                0 <= j < old(self).domain_n.n - 1 ==> inv_ok(
                    #[trigger] acc_den_at(old(self), keys, msg.beta as int, msg.gamma as int, j),
                ))),
            (old(self).beta is Some || old(self).gamma is Some || old(self).w_0_4n@.len() == 0)
                ==> r == Result::<SecondOracles, Error>::Err(Error::OutOfOrder) && *final(self)
                == *old(self),
            r is Err ==> (r == Result::<SecondOracles, Error>::Err(Error::OutOfOrder) || r
                == Result::<SecondOracles, Error>::Err(Error::ArithmeticFailure)) && *final(self)
                == *old(self),
            r matches Ok(o) ==> Self::base_unchanged(old(self), final(self)) && final(self).w_0_4n@
                == old(self).w_0_4n@ && final(self).w_1_4n@ == old(self).w_1_4n@ && final(self).w_2_4n@ == old(self).w_2_4n@ && final(self).w_3_4n@ == old(self).w_3_4n@ && final(self).beta == Some(msg.beta) && final(self).gamma == Some(msg.gamma) && final(self).alpha
                == old(self).alpha && final(self).accumulator_ready() && o.z.wf()
                && o.z.label_view() == "z"@ && o.z.poly_view() == interp_coeffs(
                acc_evals(old(self), keys, msg.beta as int, msg.gamma as int),
                old(self).domain_n,
            ) && (forall|i: int|
                0 <= i < old(self).domain_4n.n ==> #[trigger] final(self).z_4n@[i] == poly_eval(
                    o.z.poly_view(),
                    old(self).coset4@[i] as int,
                )) && (forall|i: int|
                0 <= i < old(self).domain_4n.n ==> #[trigger] final(self).z_shift_4n@[i]
                    == poly_eval(
                    o.z.poly_view(),
                    fmul(old(self).domain_n.g as int, old(self).coset4@[i] as int),
                )),
    {
        if self.beta.is_some() || self.gamma.is_some() || self.w_0_4n.len() == 0 {
            return Err(Error::OutOfOrder);
        }
        let beta: u64 = msg.beta;
        let gamma: u64 = msg.gamma;
        let n: usize = self.domain_n.n;
        let gpows: Vec<u64> = self.domain_n.elements();
        let mut z_n: Vec<u64> = Vec::new();
        z_n.push(1);
        let mut j: usize = 0;
        while j + 1 < n
            invariant
                self.wf(),
                *self == *old(self),
                old(self).beta is None,
                old(self).gamma is None,
                old(self).w_0_4n@.len() != 0,
                keys.wf(),
                self.consistent_with(keys),
                is_felt(beta),
                is_felt(gamma),
                beta == msg.beta,
                gamma == msg.gamma,
                n == self.domain_n.n,
                gpows@.len() == n,
                is_felt_seq(gpows@),
                forall|k: int|
                    0 <= k < n ==> #[trigger] gpows@[k] == fpow(self.domain_n.g as int, k as nat),
                j < n,
                z_n@.len() == j + 1,
                is_felt_seq(z_n@),
                forall|k: int|
                    0 <= k <= j ==> #[trigger] z_n@[k] == acc_value(
                        self,
                        keys,
                        beta as int,
                        gamma as int,
                        k as nat,
                    ) as u64,
                forall|k: int|
                    0 <= k < j ==> inv_ok(
                        #[trigger] acc_den_at(old(self), keys, msg.beta as int, msg.gamma as int, k),
                    ),
            decreases n - j,
        {
            let num: u64 = fp_mul(
                fp_mul(
                    crate::indexer::id_factor_exec(self.w_0_n[j], self.ks[0], beta, gamma, gpows[j]),
                    crate::indexer::id_factor_exec(self.w_1_n[j], self.ks[1], beta, gamma, gpows[j]),
                ),
                crate::indexer::id_factor_exec(self.w_2_n[j], self.ks[2], beta, gamma, gpows[j]),
            );
            let den: u64 = fp_mul(
                fp_mul(
                    crate::indexer::sigma_factor_exec(
                        self.w_0_n[j],
                        keys.permutation.sigma_0.evals_n[j],
                        beta,
                        gamma,
                    ),
                    crate::indexer::sigma_factor_exec(
                        self.w_1_n[j],
                        keys.permutation.sigma_1.evals_n[j],
                        beta,
                        gamma,
                    ),
                ),
                crate::indexer::sigma_factor_exec(
                    self.w_2_n[j],
                    keys.permutation.sigma_2.evals_n[j],
                    beta,
                    gamma,
                ),
            );
            let dinv: u64 = match fp_inv(den) {
                Some(v) => v,
                None => {
                    proof {
                        assert(beta == msg.beta && gamma == msg.gamma);
                        assert(self.w_0_n@ == old(self).w_0_n@);
                        assert(den == crate::indexer::sigma_product(
                            self.w_0_n@[j as int] as int,
                            self.w_1_n@[j as int] as int,
                            self.w_2_n@[j as int] as int,
                            keys.permutation.sigma_0.evals_n@[j as int] as int,
                            keys.permutation.sigma_1.evals_n@[j as int] as int,
                            keys.permutation.sigma_2.evals_n@[j as int] as int,
                            beta as int,
                            gamma as int,
                        ));
                        assert(den == acc_den_at(
                            old(self),
                            keys,
                            msg.beta as int,
                            msg.gamma as int,
                            j as int,
                        ));
                        assert(!inv_ok(acc_den_at(
                            old(self),
                            keys,
                            msg.beta as int,
                            msg.gamma as int,
                            j as int,
                        )));
                    }
                    return Err(Error::ArithmeticFailure);
                },
            };
            proof {
                assert(den == acc_den_at(old(self), keys, msg.beta as int, msg.gamma as int, j as int));
                assert(inv_ok(acc_den_at(old(self), keys, msg.beta as int, msg.gamma as int, j as int)));
            }
            let prev: u64 = z_n[j];
            z_n.push(fp_mul(prev, fp_mul(num, dinv)));
            j = j + 1;
        }
        proof {
            assert(z_n@ =~= acc_evals(self, keys, beta as int, gamma as int));
        }
        let z_poly: DensePoly = self.domain_n.interpolate(&z_n);
        proof {
            assert(z_poly.coeffs@ =~= interp_coeffs(
                acc_evals(self, keys, beta as int, gamma as int),
                self.domain_n,
            ));
        }
        let mut sp: Vec<u64> = Vec::new();
        let mut i: usize = 0;
        while i < self.coset4.len()
            invariant
                self.wf(),
                *self == *old(self),
                old(self).beta is None,
                old(self).gamma is None,
                old(self).w_0_4n@.len() != 0,
                i <= self.coset4@.len(),
                sp@.len() == i,
                is_felt_seq(sp@),
                forall|k: int|
                    0 <= k < i ==> #[trigger] sp@[k] == fmul(
                        self.domain_n.g as int,
                        self.coset4@[k] as int,
                    ),
            decreases self.coset4@.len() - i,
        {
            sp.push(fp_mul(self.domain_n.g, self.coset4[i]));
            i = i + 1;
        }
        let z_4n: Vec<u64> = evals_at(&z_poly, &self.coset4);
        let z_shift_4n: Vec<u64> = evals_at(&z_poly, &sp);
        self.z_4n = z_4n;
        self.z_shift_4n = z_shift_4n;
        self.beta = Some(beta);
        self.gamma = Some(gamma);
        Ok(SecondOracles { z: LabeledPolynomial::new_owned("z".to_owned(), z_poly) })
    }

    /// Third round: evaluates the whole constraint identity pointwise on
    /// the `4n` coset, divides by the vanishing polynomial there,
    /// interpolates the quotient back to coefficient form and splits it
    /// into four degree-bounded chunks.
    #[verifier::rlimit(100)]
    #[verifier::spinoff_prover]
    pub fn third_round(&mut self, msg: &SecondMsg, keys: &PreprocessorKeys) -> (r: Result<
        ThirdOracles,
        Error,
    >)
        requires
            old(self).wf(),
            keys.wf(),
            old(self).consistent_with(keys),
            is_felt(msg.alpha),
            is_felt_seq(old(self).w_0_4n@),
            is_felt_seq(old(self).w_1_4n@),
            is_felt_seq(old(self).w_2_4n@),
            is_felt_seq(old(self).w_3_4n@),
            is_felt_seq(old(self).z_4n@),
            is_felt_seq(old(self).z_shift_4n@),
        ensures
            final(self).wf(),
            r is Ok <==> (old(self).beta is Some && old(self).gamma is Some && old(
                self,
            ).alpha is None && old(self).w_0_4n@.len() == old(self).domain_4n.n && old(
                self,
            ).w_1_4n@.len() == old(self).domain_4n.n && old(self).w_2_4n@.len() == old(
                self,
            ).domain_4n.n && old(self).w_3_4n@.len() == old(self).domain_4n.n && old(
                self,
            ).z_4n@.len() == old(self).domain_4n.n && old(self).z_shift_4n@.len() == old(
                self,
            ).domain_4n.n && (forall|i: int|
                0 <= i < old(self).domain_4n.n ==> inv_ok(
                    #[trigger] fsub(
                        fpow(old(self).coset4@[i] as int, old(self).domain_n.n as nat),
                        1,
                    ),
                )) && inv_ok(MULT_GEN as int)),
            r == Result::<ThirdOracles, Error>::Err(Error::ArithmeticFailure) <==> (old(
                self,
            ).beta is Some && old(self).gamma is Some && old(self).alpha is None && old(
                self,
            ).w_0_4n@.len() == old(self).domain_4n.n && old(self).w_1_4n@.len() == old(
                self,
            ).domain_4n.n && old(self).w_2_4n@.len() == old(self).domain_4n.n && old(
                self,
            ).w_3_4n@.len() == old(self).domain_4n.n && old(self).z_4n@.len() == old(
                self,
            ).domain_4n.n && old(self).z_shift_4n@.len() == old(self).domain_4n.n && !((forall|
                i: int,
            |
                0 <= i < old(self).domain_4n.n ==> inv_ok(
                    #[trigger] fsub(
                        fpow(old(self).coset4@[i] as int, old(self).domain_n.n as nat),
                        1,
                    ),
                )) && inv_ok(MULT_GEN as int))),
            (old(self).beta is None || old(self).gamma is None || old(self).alpha is Some || old(self).w_0_4n@.len() != old(self).domain_4n.n || old(self).z_4n@.len() != old(self).domain_4n.n || old(self).z_shift_4n@.len() != old(self).domain_4n.n) ==> r
                == Result::<ThirdOracles, Error>::Err(Error::OutOfOrder) && *final(self) == *old(self),
            r is Err ==> (r == Result::<ThirdOracles, Error>::Err(Error::OutOfOrder) || r
                == Result::<ThirdOracles, Error>::Err(Error::ArithmeticFailure)) && *final(self)
                == *old(self),
            r matches Ok(o) ==> Self::base_unchanged(old(self), final(self)) && final(self).w_0_4n@
                == old(self).w_0_4n@ && final(self).w_1_4n@ == old(self).w_1_4n@ && final(self).w_2_4n@ == old(self).w_2_4n@ && final(self).w_3_4n@ == old(self).w_3_4n@ && final(self).z_4n@ == old(self).z_4n@ && final(self).z_shift_4n@ == old(self).z_shift_4n@
                && final(self).beta == old(self).beta && final(self).gamma == old(self).gamma
                && final(self).alpha == Some(msg.alpha) && (old(self).beta matches Some(beta)
                && old(self).gamma matches Some(gamma) && o.t_0.wf() && o.t_1.wf() && o.t_2.wf()
                && o.t_3.wf() && o.t_0.label_view() == "t_0"@ && o.t_1.label_view() == "t_1"@
                && o.t_2.label_view() == "t_2"@ && o.t_3.label_view() == "t_3"@
                && o.t_0.poly_view() == quotient_coeffs(
                old(self),
                keys,
                msg.alpha as int,
                beta as int,
                gamma as int,
            ).subrange(0, old(self).domain_n.n as int) && o.t_1.poly_view() == quotient_coeffs(
                old(self),
                keys,
                msg.alpha as int,
                beta as int,
                gamma as int,
            ).subrange(
                old(self).domain_n.n as int,
                2 * old(self).domain_n.n as int,
            ) && o.t_2.poly_view() == quotient_coeffs(
                old(self),
                keys,
                msg.alpha as int,
                beta as int,
                gamma as int,
            ).subrange(
                2 * old(self).domain_n.n as int,
                3 * old(self).domain_n.n as int,
            ) && o.t_3.poly_view() == quotient_coeffs(
                old(self),
                keys,
                msg.alpha as int,
                beta as int,
                gamma as int,
            ).subrange(
                3 * old(self).domain_n.n as int,
                4 * old(self).domain_n.n as int,
            )),
    {
        let beta: u64;
        let gamma: u64;
        match (self.beta, self.gamma) {
            (Some(b), Some(g)) => {
                beta = b;
                gamma = g;
            },
            _ => {
                return Err(Error::OutOfOrder);
            },
        }
        if self.alpha.is_some() {
            return Err(Error::OutOfOrder);
        }
        let n4: usize = self.domain_4n.n;
        if self.w_0_4n.len() != n4 || self.w_1_4n.len() != n4 || self.w_2_4n.len() != n4
            || self.w_3_4n.len() != n4 || self.z_4n.len() != n4 || self.z_shift_4n.len() != n4 {
            return Err(Error::OutOfOrder);
        }
        let alpha: u64 = msg.alpha;
        let arith: Vec<u64> = keys.arithmetic.compute_quotient(
            &self.domain_4n,
            &self.w_0_4n,
            &self.w_1_4n,
            &self.w_2_4n,
            &self.w_3_4n,
            &self.pi_4n,
        );
        let permq: Vec<u64> = keys.permutation.compute_quotient(
            &self.domain_4n,
            &self.coset4,
            &self.w_0_4n,
            &self.w_1_4n,
            &self.w_2_4n,
            &self.z_4n,
            &self.z_shift_4n,
            beta,
            gamma,
            alpha,
            &self.ks,
        );
        let n: usize = self.domain_n.n;
        let mut e1: Vec<u64> = Vec::new();
        e1.push(1);
        while e1.len() < n
            invariant
                1 <= e1@.len() <= n,
                forall|k: int| 0 <= k < e1@.len() ==> e1@[k] == unit_evals(n as nat)[k],
            decreases n - e1.len(),
        {
            e1.push(0);
        }
        proof {
            assert(e1@ =~= unit_evals(n as nat));
        }
        let l1_poly: DensePoly = self.domain_n.interpolate(&e1);
        proof {
            assert(l1_poly.coeffs@ =~= interp_coeffs(unit_evals(n as nat), self.domain_n));
        }
        let l1_4n: Vec<u64> = evals_at(&l1_poly, &self.coset4);
        let t_evals: Vec<u64> = match divide_by_vanishing(
            &arith,
            &permq,
            &l1_4n,
            &self.z_4n,
            &self.coset4,
            alpha,
            n,
        ) {
            Ok(v) => v,
            Err(e) => {
                return Err(e);
            },
        };
        proof {
            assert forall|k: int| 0 <= k < n4 implies #[trigger] t_evals@[k] == quotient_eval_at(
                self,
                keys,
                alpha as int,
                beta as int,
                gamma as int,
                k,
            ) as u64 by {
                assert(arith@[k] == gate_eval(
                    self.w_0_4n@[k] as int,
                    self.w_1_4n@[k] as int,
                    self.w_2_4n@[k] as int,
                    self.w_3_4n@[k] as int,
                    keys.arithmetic.q_0.evals_4n@[k] as int,
                    keys.arithmetic.q_1.evals_4n@[k] as int,
                    keys.arithmetic.q_2.evals_4n@[k] as int,
                    keys.arithmetic.q_3.evals_4n@[k] as int,
                    keys.arithmetic.q_m.evals_4n@[k] as int,
                    keys.arithmetic.q_c.evals_4n@[k] as int,
                    keys.arithmetic.q_arith.evals_4n@[k] as int,
                    self.pi_4n@[k] as int,
                ));
            }
        }
        let shift_inv: u64 = match fp_inv(MULT_GEN) {
            Some(v) => v,
            None => {
                return Err(Error::ArithmeticFailure);
            },
        };
        let t_poly: DensePoly = self.domain_4n.coset_interpolate(&t_evals, shift_inv);
        proof {
            let ghost tev = Seq::new(
                self.domain_4n.n as nat,
                |i: int| quotient_eval_at(self, keys, alpha as int, beta as int, gamma as int, i) as u64,
            );
            assert(t_evals@ =~= tev);
            assert(t_poly.coeffs@ =~= quotient_coeffs(
                self,
                keys,
                alpha as int,
                beta as int,
                gamma as int,
            ));
        }
        let mut chunks: Vec<Vec<u64>> = Vec::new();
        let mut c: usize = 0;
        while c < 4
            invariant
                t_poly.wf(),
                t_poly.coeffs@.len() == n4,
                n4 == 4 * n,
                c <= 4,
                chunks@.len() == c,
                forall|k: int|
                    0 <= k < c ==> (#[trigger] chunks@[k]@) == t_poly.coeffs@.subrange(
                        k * n as int,
                        (k + 1) * n as int,
                    ),
            decreases 4 - c,
        {
            let mut chunk: Vec<u64> = Vec::new();
            let mut j: usize = 0;
            proof {
                assert(c * n + n <= 4 * n) by (nonlinear_arith)
                    requires
                        c < 4,
                        n >= 0,
                ;
                assert((c as int + 1) * n as int == c as int * n as int + n as int)
                    by (nonlinear_arith);
            }
            while j < n
                invariant
                    t_poly.coeffs@.len() == n4,
                    n4 == 4 * n,
                    c < 4,
                    c * n + n <= 4 * n,
                    j <= n,
                    chunk@.len() == j,
                    forall|k: int|
                        0 <= k < j ==> #[trigger] chunk@[k] == t_poly.coeffs@[c * n + k],
                decreases n - j,
            {
                chunk.push(t_poly.coeffs[c * n + j]);
                j = j + 1;
            }
            proof {
                assert(chunk@ =~= t_poly.coeffs@.subrange(c as int * n as int, (c as int + 1) * n as int));
            }
            chunks.push(chunk);
            c = c + 1;
        }
        let c3: Vec<u64> = chunks.pop().unwrap();
        let c2: Vec<u64> = chunks.pop().unwrap();
        let c1: Vec<u64> = chunks.pop().unwrap();
        let c0: Vec<u64> = chunks.pop().unwrap();
        self.alpha = Some(alpha);
        proof {
            crate::poly::lemma_subrange_felt(t_poly.coeffs@, 0, n as int);
            crate::poly::lemma_subrange_felt(t_poly.coeffs@, n as int, 2 * n as int);
            crate::poly::lemma_subrange_felt(t_poly.coeffs@, 2 * n as int, 3 * n as int);
            crate::poly::lemma_subrange_felt(t_poly.coeffs@, 3 * n as int, 4 * n as int);
        }
        Ok(
            ThirdOracles {
                t_0: LabeledPolynomial::new_owned("t_0".to_owned(), DensePoly { coeffs: c0 }),
                t_1: LabeledPolynomial::new_owned("t_1".to_owned(), DensePoly { coeffs: c1 }),
                t_2: LabeledPolynomial::new_owned("t_2".to_owned(), DensePoly { coeffs: c2 }),
                t_3: LabeledPolynomial::new_owned("t_3".to_owned(), DensePoly { coeffs: c3 }),
            },
        )
    }

    /// Computes the evaluation set the proof carries: every oracle and
    /// every opened index polynomial at `zeta`, the accumulator also at
    /// the shifted point, the chunked quotient recombined, and the
    /// linearization value.
    pub fn evaluate(
        &self,
        third_msg: &ThirdMsg,
        keys: &PreprocessorKeys,
        first_oracles: &FirstOracles,
        second_oracles: &SecondOracles,
        third_oracles: &ThirdOracles,
    ) -> (r: Result<Evaluations, Error>)
        requires
            self.wf(),
            keys.wf(),
            self.consistent_with(keys),
            is_felt(third_msg.zeta),
            first_oracles.w_0.wf(),
            first_oracles.w_1.wf(),
            first_oracles.w_2.wf(),
            first_oracles.w_3.wf(),
            second_oracles.z.wf(),
            third_oracles.t_0.wf(),
            third_oracles.t_1.wf(),
            third_oracles.t_2.wf(),
            third_oracles.t_3.wf(),
        ensures
            (self.alpha is None || self.beta is None || self.gamma is None) <==> r == Result::<
                Evaluations,
                Error,
            >::Err(Error::OutOfOrder),
            r is Ok <==> (self.alpha is Some && self.beta is Some && self.gamma is Some),
            r is Err ==> r == Result::<Evaluations, Error>::Err(Error::OutOfOrder),
            r matches Ok(e) ==> (self.alpha matches Some(alpha) && self.beta matches Some(beta)
                && self.gamma matches Some(gamma) && crate::rounds::evals_wf(e.entries@)
                && e.entries@.len() == 10 && e.entries@[0].0@ == "w_0"@ && e.entries@[0].1
                == third_msg.zeta && e.entries@[0].2 == poly_eval(
                first_oracles.w_0.poly_view(),
                third_msg.zeta as int,
            ) && e.entries@[1].0@ == "w_1"@ && e.entries@[1].1 == third_msg.zeta
                && e.entries@[1].2 == poly_eval(
                first_oracles.w_1.poly_view(),
                third_msg.zeta as int,
            ) && e.entries@[2].0@ == "w_2"@ && e.entries@[2].1 == third_msg.zeta
                && e.entries@[2].2 == poly_eval(
                first_oracles.w_2.poly_view(),
                third_msg.zeta as int,
            ) && e.entries@[3].0@ == "w_3"@ && e.entries@[3].1 == third_msg.zeta
                && e.entries@[3].2 == poly_eval(
                first_oracles.w_3.poly_view(),
                third_msg.zeta as int,
            ) && e.entries@[4].0@ == "z"@ && e.entries@[4].1 == fmul(
                self.domain_n.g as int,
                third_msg.zeta as int,
            ) && e.entries@[4].2 == poly_eval(
                second_oracles.z.poly_view(),
                fmul(self.domain_n.g as int, third_msg.zeta as int),
            ) && e.entries@[5].0@ == "q_arith"@ && e.entries@[5].1 == third_msg.zeta
                && e.entries@[5].2 == poly_eval(
                keys.arithmetic.q_arith.poly.poly_view(),
                third_msg.zeta as int,
            ) && e.entries@[6].0@ == "sigma_0"@ && e.entries@[6].1 == third_msg.zeta
                && e.entries@[6].2 == poly_eval(
                keys.permutation.sigma_0.poly.poly_view(),
                third_msg.zeta as int,
            ) && e.entries@[7].0@ == "sigma_1"@ && e.entries@[7].1 == third_msg.zeta
                && e.entries@[7].2 == poly_eval(
                keys.permutation.sigma_1.poly.poly_view(),
                third_msg.zeta as int,
            ) && e.entries@[8].0@ == "t"@ && e.entries@[8].1 == third_msg.zeta
                && e.entries@[8].2 == t_value(
                third_oracles,
                third_msg.zeta as int,
                self.domain_n.n as nat,
            ) && e.entries@[9].0@ == "r"@ && e.entries@[9].1 == third_msg.zeta
                && e.entries@[9].2 == r_value(
                self,
                keys,
                first_oracles,
                second_oracles,
                alpha as int,
                beta as int,
                gamma as int,
                third_msg.zeta as int,
            )),
    {
        let zeta: u64 = third_msg.zeta;
        let alpha: u64;
        let beta: u64;
        let gamma: u64;
        match (self.alpha, self.beta, self.gamma) {
            (Some(a), Some(b), Some(g)) => {
                alpha = a;
                beta = b;
                gamma = g;
            },
            _ => {
                return Err(Error::OutOfOrder);
            },
        }
        let w_0: u64 = first_oracles.w_0.evaluate(&zeta);
        let w_1: u64 = first_oracles.w_1.evaluate(&zeta);
        let w_2: u64 = first_oracles.w_2.evaluate(&zeta);
        let w_3: u64 = first_oracles.w_3.evaluate(&zeta);
        let sp: u64 = fp_mul(self.domain_n.g, zeta);
        let z_sh: u64 = second_oracles.z.evaluate(&sp);
        let z_z: u64 = second_oracles.z.evaluate(&zeta);
        let zn: u64 = fp_pow(zeta, self.domain_n.n as u64);
        let z2n: u64 = fp_mul(zn, zn);
        let z3n: u64 = fp_mul(z2n, zn);
        let t_zeta: u64 = fp_add(
            fp_add(
                fp_add(
                    third_oracles.t_0.evaluate(&zeta),
                    fp_mul(third_oracles.t_1.evaluate(&zeta), zn),
                ),
                fp_mul(third_oracles.t_2.evaluate(&zeta), z2n),
            ),
            fp_mul(third_oracles.t_3.evaluate(&zeta), z3n),
        );
        let q_0_z: u64 = keys.arithmetic.q_0.poly.evaluate(&zeta);
        let q_1_z: u64 = keys.arithmetic.q_1.poly.evaluate(&zeta);
        let q_2_z: u64 = keys.arithmetic.q_2.poly.evaluate(&zeta);
        let q_3_z: u64 = keys.arithmetic.q_3.poly.evaluate(&zeta);
        let q_m_z: u64 = keys.arithmetic.q_m.poly.evaluate(&zeta);
        let q_c_z: u64 = keys.arithmetic.q_c.poly.evaluate(&zeta);
        let q_a_z: u64 = keys.arithmetic.q_arith.poly.evaluate(&zeta);
        let s_0_z: u64 = keys.permutation.sigma_0.poly.evaluate(&zeta);
        let s_1_z: u64 = keys.permutation.sigma_1.poly.evaluate(&zeta);
        let s_2_z: u64 = keys.permutation.sigma_2.poly.evaluate(&zeta);
        let n: usize = self.domain_n.n;
        let mut e1: Vec<u64> = Vec::new();
        e1.push(1);
        while e1.len() < n
            invariant
                1 <= e1@.len() <= n,
                forall|k: int| 0 <= k < e1@.len() ==> e1@[k] == unit_evals(n as nat)[k],
            decreases n - e1.len(),
        {
            e1.push(0);
        }
        proof {
            assert(e1@ =~= unit_evals(n as nat));
        }
        let l1_poly: DensePoly = self.domain_n.interpolate(&e1);
        proof {
            assert(l1_poly.coeffs@ =~= interp_coeffs(unit_evals(n as nat), self.domain_n));
        }
        let l1_z: u64 = l1_poly.evaluate(&zeta);
        let lc: crate::indexer::LinearCombination = ArithmeticKey::construct_linear_combination(
            (w_0, w_1, w_2, w_3),
            q_a_z,
        );
        let arith_lin: u64 = fp_add(
            fp_add(
                fp_add(
                    fp_add(
                        fp_add(fp_mul(lc.terms[0].0, q_0_z), fp_mul(lc.terms[1].0, q_1_z)),
                        fp_mul(lc.terms[2].0, q_2_z),
                    ),
                    fp_mul(lc.terms[3].0, q_3_z),
                ),
                fp_mul(lc.terms[4].0, q_m_z),
            ),
            fp_mul(lc.terms[5].0, q_c_z),
        );
        let perm_a: u64 = fp_mul(
            fp_mul(
                alpha,
                fp_mul(
                    fp_mul(
                        crate::indexer::id_factor_exec(w_0, self.ks[0], beta, gamma, zeta),
                        crate::indexer::id_factor_exec(w_1, self.ks[1], beta, gamma, zeta),
                    ),
                    crate::indexer::id_factor_exec(w_2, self.ks[2], beta, gamma, zeta),
                ),
            ),
            z_z,
        );
        let perm_b: u64 = fp_mul(
            fp_mul(
                fp_mul(
                    fp_mul(
                        fp_mul(alpha, z_sh),
                        crate::indexer::sigma_factor_exec(w_0, s_0_z, beta, gamma),
                    ),
                    crate::indexer::sigma_factor_exec(w_1, s_1_z, beta, gamma),
                ),
                beta,
            ),
            s_2_z,
        );
        let bound: u64 = fp_mul(fp_mul(fp_mul(alpha, alpha), l1_z), z_z);
        let r_zeta: u64 = fp_add(fp_sub(fp_add(arith_lin, perm_a), perm_b), bound);
        let mut evals: Evaluations = Evaluations::new();
        evals.insert("w_0".to_owned(), zeta, w_0);
        evals.insert("w_1".to_owned(), zeta, w_1);
        evals.insert("w_2".to_owned(), zeta, w_2);
        evals.insert("w_3".to_owned(), zeta, w_3);
        evals.insert("z".to_owned(), sp, z_sh);
        evals.insert("q_arith".to_owned(), zeta, q_a_z);
        evals.insert("sigma_0".to_owned(), zeta, s_0_z);
        evals.insert("sigma_1".to_owned(), zeta, s_1_z);
        evals.insert("t".to_owned(), zeta, t_zeta);
        evals.insert("r".to_owned(), zeta, r_zeta);
        Ok(evals)
    }
}

/// The evaluations of the first Lagrange basis polynomial's defining
/// vector: one at the first domain point, zero elsewhere.
pub open spec fn unit_evals(n: nat) -> Seq<u64> {
    Seq::new(n, |i: int| if i == 0 { 1u64 } else { 0u64 })
}

/// The identity-side factor product of the accumulator recurrence at
/// row `j`.
pub open spec fn acc_num_at(p: &Prover, beta: int, gamma: int, j: int) -> int {
    id_product(
        p.w_0_n@[j] as int,
        p.w_1_n@[j] as int,
        p.w_2_n@[j] as int,
        p.ks@[0] as int,
        p.ks@[1] as int,
        p.ks@[2] as int,
        beta,
        gamma,
        fpow(p.domain_n.g as int, j as nat),
    )
}

/// The sigma-side factor product of the recurrence at row `j`, over the
/// padded witness columns and the permutation columns directly.
pub open spec fn den_of(
    w_0: Seq<u64>,
    w_1: Seq<u64>,
    w_2: Seq<u64>,
    s_0: Seq<u64>,
    s_1: Seq<u64>,
    s_2: Seq<u64>,
    beta: int,
    gamma: int,
    j: int,
) -> int {
    sigma_product(
        w_0[j] as int,
        w_1[j] as int,
        w_2[j] as int,
        s_0[j] as int,
        s_1[j] as int,
        s_2[j] as int,
        beta,
        gamma,
    )
}

/// The sigma-side factor product of the accumulator recurrence at
/// row `j`.
pub open spec fn acc_den_at(p: &Prover, keys: &PreprocessorKeys, beta: int, gamma: int, j: int) -> int {
    den_of(
        p.w_0_n@,
        p.w_1_n@,
        p.w_2_n@,
        keys.permutation.sigma_0.evals_n@,
        keys.permutation.sigma_1.evals_n@,
        keys.permutation.sigma_2.evals_n@,
        beta,
        gamma,
        j,
    )
}

/// The accumulator value at row `i`: the running product of the
/// identity-over-sigma ratios of all earlier rows, starting at one.
pub open spec fn acc_value(p: &Prover, keys: &PreprocessorKeys, beta: int, gamma: int, i: nat) -> int
    decreases i,
{
    if i == 0 {
        1
    } else {
        fmul(
            acc_value(p, keys, beta, gamma, (i - 1) as nat),
            fmul(
                acc_num_at(p, beta, gamma, i - 1),
                finv(acc_den_at(p, keys, beta, gamma, i - 1)),
            ),
        )
    }
}

/// The whole accumulator column over the domain.
pub open spec fn acc_evals(p: &Prover, keys: &PreprocessorKeys, beta: int, gamma: int) -> Seq<u64> {
    Seq::new(p.domain_n.n as nat, |i: int| acc_value(p, keys, beta, gamma, i as nat) as u64)
}

/// The combined quotient value at `zeta`: each chunk's value weighted by
/// the matching power of `zeta^n`.
pub open spec fn t_value(o: &ThirdOracles, zeta: int, n: nat) -> int {
    let zn = fpow(zeta, n);
    fadd(
        fadd(
            fadd(poly_eval(o.t_0.poly_view(), zeta), fmul(poly_eval(o.t_1.poly_view(), zeta), zn)),
            fmul(poly_eval(o.t_2.poly_view(), zeta), fmul(zn, zn)),
        ),
        fmul(poly_eval(o.t_3.poly_view(), zeta), fmul(fmul(zn, zn), zn)),
    )
}

/// The linearization value at `zeta`: the arithmetic combination of the
/// opened wire values against the selector openings, plus the
/// permutation and boundary parts with the accumulator and the last
/// permutation column folded in.
pub open spec fn r_value(
    p: &Prover,
    keys: &PreprocessorKeys,
    fo: &FirstOracles,
    so: &SecondOracles,
    alpha: int,
    beta: int,
    gamma: int,
    zeta: int,
) -> int {
    let w_0 = poly_eval(fo.w_0.poly_view(), zeta);
    let w_1 = poly_eval(fo.w_1.poly_view(), zeta);
    let w_2 = poly_eval(fo.w_2.poly_view(), zeta);
    let w_3 = poly_eval(fo.w_3.poly_view(), zeta);
    let q_0 = poly_eval(keys.arithmetic.q_0.poly.poly_view(), zeta);
    let q_1 = poly_eval(keys.arithmetic.q_1.poly.poly_view(), zeta);
    let q_2 = poly_eval(keys.arithmetic.q_2.poly.poly_view(), zeta);
    let q_3 = poly_eval(keys.arithmetic.q_3.poly.poly_view(), zeta);
    let q_m = poly_eval(keys.arithmetic.q_m.poly.poly_view(), zeta);
    let q_c = poly_eval(keys.arithmetic.q_c.poly.poly_view(), zeta);
    let q_a = poly_eval(keys.arithmetic.q_arith.poly.poly_view(), zeta);
    let s_0 = poly_eval(keys.permutation.sigma_0.poly.poly_view(), zeta);
    let s_1 = poly_eval(keys.permutation.sigma_1.poly.poly_view(), zeta);
    let s_2 = poly_eval(keys.permutation.sigma_2.poly.poly_view(), zeta);
    let z_z = poly_eval(so.z.poly_view(), zeta);
    let z_sh = poly_eval(so.z.poly_view(), fmul(p.domain_n.g as int, zeta));
    let arith_lin = fadd(
        fadd(
            fadd(
                fadd(
                    fadd(fmul(fmul(q_a, w_0), q_0), fmul(fmul(q_a, w_1), q_1)),
                    fmul(fmul(q_a, w_2), q_2),
                ),
                fmul(fmul(q_a, w_3), q_3),
            ),
            fmul(fmul(fmul(q_a, w_1), w_2), q_m),
        ),
        fmul(q_a, q_c),
    );
    let perm_a = fmul(
        fmul(
            alpha,
            id_product(
                w_0,
                w_1,
                w_2,
                p.ks@[0] as int,
                p.ks@[1] as int,
                p.ks@[2] as int,
                beta,
                gamma,
                zeta,
            ),
        ),
        z_z,
    );
    let perm_b = fmul(
        fmul(
            fmul(
                fmul(fmul(alpha, z_sh), crate::indexer::sigma_factor(w_0, s_0, beta, gamma)),
                crate::indexer::sigma_factor(w_1, s_1, beta, gamma),
            ),
            beta,
        ),
        s_2,
    );
    let bound = fmul(
        fmul(
            fmul(alpha, alpha),
            poly_eval(interp_coeffs(unit_evals(p.domain_n.n as nat), p.domain_n), zeta),
        ),
        z_z,
    );
    fadd(fsub(fadd(arith_lin, perm_a), perm_b), bound)
}

/// Combines the three per-point quotient terms and divides by the
/// vanishing polynomial of the size-`n` domain, point by point.
fn divide_by_vanishing(
    arith: &Vec<u64>,
    permq: &Vec<u64>,
    l1_4n: &Vec<u64>,
    z_4n: &Vec<u64>,
    coset4: &Vec<u64>,
    alpha: u64,
    n: usize,
) -> (r: Result<Vec<u64>, Error>)
    requires
        is_felt(alpha),
        arith@.len() == coset4@.len() && is_felt_seq(arith@),
        permq@.len() == coset4@.len() && is_felt_seq(permq@),
        l1_4n@.len() == coset4@.len() && is_felt_seq(l1_4n@),
        z_4n@.len() == coset4@.len() && is_felt_seq(z_4n@),
        is_felt_seq(coset4@),
    ensures
        r is Ok <==> (forall|k: int|
            0 <= k < coset4@.len() ==> inv_ok(
                #[trigger] fsub(fpow(coset4@[k] as int, n as nat), 1),
            )),
        r is Err ==> r == Result::<Vec<u64>, Error>::Err(Error::ArithmeticFailure),
        r matches Ok(t) ==> t@.len() == coset4@.len() && is_felt_seq(t@) && (forall|k: int|
            0 <= k < t@.len() ==> #[trigger] t@[k] == fmul(
                fadd(
                    fadd(arith@[k] as int, permq@[k] as int),
                    fmul(
                        fmul(alpha as int, alpha as int),
                        fmul(l1_4n@[k] as int, fsub(z_4n@[k] as int, 1)),
                    ),
                ),
                finv(fsub(fpow(coset4@[k] as int, n as nat), 1)),
            ) as u64),
{
    let mut out: Vec<u64> = Vec::new();
    let mut i: usize = 0;
    while i < coset4.len()
        invariant
            is_felt(alpha),
            arith@.len() == coset4@.len() && is_felt_seq(arith@),
            permq@.len() == coset4@.len() && is_felt_seq(permq@),
            l1_4n@.len() == coset4@.len() && is_felt_seq(l1_4n@),
            z_4n@.len() == coset4@.len() && is_felt_seq(z_4n@),
            is_felt_seq(coset4@),
            i <= coset4@.len(),
            out@.len() == i,
            is_felt_seq(out@),
            forall|k: int|
                0 <= k < i ==> #[trigger] out@[k] == fmul(
                    fadd(
                        fadd(arith@[k] as int, permq@[k] as int),
                        fmul(
                            fmul(alpha as int, alpha as int),
                            fmul(l1_4n@[k] as int, fsub(z_4n@[k] as int, 1)),
                        ),
                    ),
                    finv(fsub(fpow(coset4@[k] as int, n as nat), 1)),
                ) as u64,
            forall|k: int|
                0 <= k < i ==> inv_ok(#[trigger] fsub(fpow(coset4@[k] as int, n as nat), 1)),
        decreases coset4@.len() - i,
    {
        let bound: u64 = fp_mul(fp_mul(alpha, alpha), fp_mul(l1_4n[i], fp_sub(z_4n[i], 1)));
        let numer: u64 = fp_add(fp_add(arith[i], permq[i]), bound);
        let van: u64 = fp_sub(fp_pow(coset4[i], n as u64), 1);
        let vinv: u64 = match fp_inv(van) {
            Some(v) => v,
            None => {
                proof {
                    assert(!inv_ok(fsub(fpow(coset4@[i as int] as int, n as nat), 1)));
                }
                return Err(Error::ArithmeticFailure);
            },
        };
        out.push(fp_mul(numer, vinv));
        i = i + 1;
    }
    Ok(out)
}

/// The quotient evaluation at coset point `i`: the sum of the arithmetic
/// term, the permutation term and the boundary term, divided by the
/// vanishing polynomial of the small domain.
pub open spec fn quotient_eval_at(
    p: &Prover,
    keys: &PreprocessorKeys,
    alpha: int,
    beta: int,
    gamma: int,
    i: int,
) -> int {
    let arith = gate_eval(
        p.w_0_4n@[i] as int,
        p.w_1_4n@[i] as int,
        p.w_2_4n@[i] as int,
        p.w_3_4n@[i] as int,
        keys.arithmetic.q_0.evals_4n@[i] as int,
        keys.arithmetic.q_1.evals_4n@[i] as int,
        keys.arithmetic.q_2.evals_4n@[i] as int,
        keys.arithmetic.q_3.evals_4n@[i] as int,
        keys.arithmetic.q_m.evals_4n@[i] as int,
        keys.arithmetic.q_c.evals_4n@[i] as int,
        keys.arithmetic.q_arith.evals_4n@[i] as int,
        p.pi_4n@[i] as int,
    );
    let perm = perm_term(
        p.z_4n@[i] as int,
        p.z_shift_4n@[i] as int,
        p.w_0_4n@[i] as int,
        p.w_1_4n@[i] as int,
        p.w_2_4n@[i] as int,
        keys.permutation.sigma_0.evals_4n@[i] as int,
        keys.permutation.sigma_1.evals_4n@[i] as int,
        keys.permutation.sigma_2.evals_4n@[i] as int,
        p.ks@[0] as int,
        p.ks@[1] as int,
        p.ks@[2] as int,
        beta,
        gamma,
        alpha,
        p.coset4@[i] as int,
    );
    let l1 = poly_eval(
        interp_coeffs(unit_evals(p.domain_n.n as nat), p.domain_n),
        p.coset4@[i] as int,
    );
    let bound = fmul(fmul(alpha, alpha), fmul(l1, fsub(p.z_4n@[i] as int, 1)));
    let numer = fadd(fadd(arith, perm), bound);
    let van = fsub(fpow(p.coset4@[i] as int, p.domain_n.n as nat), 1);
    fmul(numer, finv(van))
}

/// The whole quotient in coefficient form: the coset interpolant of the
/// pointwise quotient evaluations.
pub open spec fn quotient_coeffs(
    p: &Prover,
    keys: &PreprocessorKeys,
    alpha: int,
    beta: int,
    gamma: int,
) -> Seq<u64> {
    let tevals = Seq::new(
        p.domain_4n.n as nat,
        |i: int| quotient_eval_at(p, keys, alpha, beta, gamma, i) as u64,
    );
    Seq::new(
        p.domain_4n.n as nat,
        |j: int|
            fmul(
                idft_coeff(tevals, p.domain_4n.g_inv as int, p.domain_4n.n_inv as int, j as nat),
                fpow(finv(MULT_GEN as int), j as nat),
            ) as u64,
    )
}

} // verus!
