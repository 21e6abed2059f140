//! The verifier's round state machine and its terminal equality check.
//!
//! The state holds the four challenges, each filled exactly once and in
//! strict round order: entering a round out of order, or twice, is
//! rejected rather than silently overwriting. The challenges can be
//! supplied by the caller (the scripted mode, for deterministic drivers)
//! or drawn from the Fiat-Shamir transcript (the non-interactive mode the
//! orchestrator uses); both advance the same state machine.
use vstd::prelude::*;

use crate::domain::{domain_gen, idft_coeff, Domain};
use crate::field::{fadd, finv, fmul, fpow, fp_add, fp_mul, fp_sub, fsub, is_felt};
use crate::indexer::{padded, sigma_factor, IndexInfo};
use crate::poly::{is_felt_seq, poly_eval};
use crate::transcript::{squeezed_state, squeezed_value, FiatShamirRng};
use crate::Error;

verus! {

/// The ordered map from (label, evaluation point) to opened value that
/// carries the verifier's required openings.
pub struct Evaluations {
    /// The entries, in insertion order.
    pub entries: Vec<(String, u64, u64)>,
}

/// The first entry matching label and point, front to back.
pub open spec fn lookup(entries: Seq<(String, u64, u64)>, label: Seq<char>, point: u64) -> Option<
    u64,
>
    decreases entries.len(),
{
    if entries.len() == 0 {
        None
    } else if entries[0].0@ == label && entries[0].1 == point {
        Some(entries[0].2)
    } else {
        lookup(entries.skip(1), label, point)
    }
}

/// Every opened value in the set is a reduced residue.
pub open spec fn evals_wf(entries: Seq<(String, u64, u64)>) -> bool {
    forall|i: int| 0 <= i < entries.len() ==> is_felt((#[trigger] entries[i]).2)
}

/// A successful lookup in a well-formed set yields a reduced residue.
pub proof fn lemma_lookup_felt(entries: Seq<(String, u64, u64)>, label: Seq<char>, point: u64)
    requires
        evals_wf(entries),
    ensures
        lookup(entries, label, point) matches Some(v) ==> is_felt(v),
    decreases entries.len(),
{
    if entries.len() == 0 {
    } else if entries[0].0@ == label && entries[0].1 == point {
    } else {
        assert(forall|i: int|
            0 <= i < entries.skip(1).len() ==> (#[trigger] entries.skip(1)[i]) == entries[i + 1]);
        lemma_lookup_felt(entries.skip(1), label, point);
    }
}

/// Every opening the verifier demands is present: the four wires, the
/// gate-switch, two permutation columns, quotient and linearization at
/// `zeta`, and the accumulator at the shifted point `sp`.
pub open spec fn required_openings_present(
    entries: Seq<(String, u64, u64)>,
    zeta: u64,
    sp: u64,
) -> bool {
    &&& lookup(entries, "w_0"@, zeta) is Some
    &&& lookup(entries, "w_1"@, zeta) is Some
    &&& lookup(entries, "w_2"@, zeta) is Some
    &&& lookup(entries, "w_3"@, zeta) is Some
    &&& lookup(entries, "z"@, sp) is Some
    &&& lookup(entries, "q_arith"@, zeta) is Some
    &&& lookup(entries, "sigma_0"@, zeta) is Some
    &&& lookup(entries, "sigma_1"@, zeta) is Some
    &&& lookup(entries, "t"@, zeta) is Some
    &&& lookup(entries, "r"@, zeta) is Some
}

/// A lookup finds the first matching entry: if entry `k` matches and no
/// earlier entry does, the lookup yields exactly entry `k`'s value.
pub proof fn lemma_lookup_at(entries: Seq<(String, u64, u64)>, label: Seq<char>, point: u64, k: int)
    requires
        0 <= k < entries.len(),
        entries[k].0@ == label && entries[k].1 == point,
        forall|j: int| 0 <= j < k ==> !((#[trigger] entries[j]).0@ == label && entries[j].1 == point),
    ensures
        lookup(entries, label, point) == Some(entries[k].2),
    decreases k,
{
    if k == 0 {
    } else {
        assert(forall|i: int|
            0 <= i < entries.skip(1).len() ==> (#[trigger] entries.skip(1)[i]) == entries[i + 1]);
        lemma_lookup_at(entries.skip(1), label, point, k - 1);
    }
}

/// Every opening the verifier's query set demands is present in the
/// evaluation set the prover builds: the four wires, the accumulator at
/// the shifted point, the two opened permutation columns, the switch
/// selector, the quotient and the linearization.
pub proof fn lemma_query_set_covered(entries: Seq<(String, u64, u64)>, zeta: u64, sp: u64)
    requires
        entries.len() == 10,
        entries[0].0@ == "w_0"@ && entries[0].1 == zeta,
        entries[1].0@ == "w_1"@ && entries[1].1 == zeta,
        entries[2].0@ == "w_2"@ && entries[2].1 == zeta,
        entries[3].0@ == "w_3"@ && entries[3].1 == zeta,
        entries[4].0@ == "z"@ && entries[4].1 == sp,
        entries[5].0@ == "q_arith"@ && entries[5].1 == zeta,
        entries[6].0@ == "sigma_0"@ && entries[6].1 == zeta,
        entries[7].0@ == "sigma_1"@ && entries[7].1 == zeta,
        entries[8].0@ == "t"@ && entries[8].1 == zeta,
        entries[9].0@ == "r"@ && entries[9].1 == zeta,
    ensures
        lookup(entries, "w_0"@, zeta) == Some(entries[0].2),
        lookup(entries, "w_1"@, zeta) == Some(entries[1].2),
        lookup(entries, "w_2"@, zeta) == Some(entries[2].2),
        lookup(entries, "w_3"@, zeta) == Some(entries[3].2),
        lookup(entries, "z"@, sp) == Some(entries[4].2),
        lookup(entries, "q_arith"@, zeta) == Some(entries[5].2),
        lookup(entries, "sigma_0"@, zeta) == Some(entries[6].2),
        lookup(entries, "sigma_1"@, zeta) == Some(entries[7].2),
        lookup(entries, "t"@, zeta) == Some(entries[8].2),
        lookup(entries, "r"@, zeta) == Some(entries[9].2),
{
    reveal_strlit("w_0");
    reveal_strlit("w_1");
    reveal_strlit("w_2");
    reveal_strlit("w_3");
    reveal_strlit("z");
    reveal_strlit("q_arith");
    reveal_strlit("sigma_0");
    reveal_strlit("sigma_1");
    reveal_strlit("t");
    reveal_strlit("r");
    assert("w_0"@[2] != "w_1"@[2] && "w_0"@ != "w_1"@);
    assert("w_0"@[2] != "w_2"@[2] && "w_0"@ != "w_2"@);
    assert("w_0"@[2] != "w_3"@[2] && "w_0"@ != "w_3"@);
    assert("w_1"@[2] != "w_2"@[2] && "w_1"@ != "w_2"@);
    assert("w_1"@[2] != "w_3"@[2] && "w_1"@ != "w_3"@);
    assert("w_2"@[2] != "w_3"@[2] && "w_2"@ != "w_3"@);
    assert("q_arith"@[0] != "sigma_0"@[0] && "q_arith"@ != "sigma_0"@);
    assert("q_arith"@[0] != "sigma_1"@[0] && "q_arith"@ != "sigma_1"@);
    assert("sigma_0"@[6] != "sigma_1"@[6] && "sigma_0"@ != "sigma_1"@);
    assert("z"@[0] != "t"@[0] && "z"@ != "t"@);
    assert("z"@[0] != "r"@[0] && "z"@ != "r"@);
    assert("t"@[0] != "r"@[0] && "t"@ != "r"@);
    lemma_lookup_at(entries, "w_0"@, zeta, 0);
    lemma_lookup_at(entries, "w_1"@, zeta, 1);
    lemma_lookup_at(entries, "w_2"@, zeta, 2);
    lemma_lookup_at(entries, "w_3"@, zeta, 3);
    lemma_lookup_at(entries, "z"@, sp, 4);
    lemma_lookup_at(entries, "q_arith"@, zeta, 5);
    lemma_lookup_at(entries, "sigma_0"@, zeta, 6);
    lemma_lookup_at(entries, "sigma_1"@, zeta, 7);
    lemma_lookup_at(entries, "t"@, zeta, 8);
    lemma_lookup_at(entries, "r"@, zeta, 9);
}

impl Evaluations {
    /// An empty evaluation set.
    pub fn new() -> (r: Evaluations)
        ensures
            r.entries@.len() == 0,
    {
        Evaluations { entries: Vec::new() }
    }

    /// Appends an opening.
    pub fn insert(&mut self, label: String, point: u64, value: u64)
        ensures
            final(self).entries@ == old(self).entries@.push((label, point, value)),
    {
        self.entries.push((label, point, value));
    }

    /// Finds the opening for `label` at `point`, if present.
    pub fn get(&self, label: &String, point: u64) -> (r: Option<u64>)
        ensures
            r == lookup(self.entries@, label@, point),
    {
        let mut i: usize = 0;
        proof {
            assert(self.entries@.skip(0) =~= self.entries@);
        }
        while i < self.entries.len()
            invariant
                i <= self.entries@.len(),
                lookup(self.entries@, label@, point) == lookup(
                    self.entries@.skip(i as int),
                    label@,
                    point,
                ),
            decreases self.entries@.len() - i,
        {
            let e: &(String, u64, u64) = &self.entries[i];
            if e.0 == *label && e.1 == point {
                proof {
                    assert(self.entries@.skip(i as int)[0] == self.entries@[i as int]);
                }
                return Some(e.2);
            }
            proof {
                assert(self.entries@.skip(i as int)[0] == self.entries@[i as int]);
                assert(self.entries@.skip(i as int).skip(1) =~= self.entries@.skip(i + 1));
            }
            i = i + 1;
        }
        None
    }
}

/// The verifier's protocol state: size metadata and the four challenges,
/// each `None` until its round has run.
pub struct VerifierState {
    /// The circuit-size metadata the state was opened for.
    pub info: IndexInfo,
    /// Combination challenge, set by the second round.
    pub alpha: Option<u64>,
    /// Permutation challenge, set by the first round.
    pub beta: Option<u64>,
    /// Permutation challenge, set by the first round.
    pub gamma: Option<u64>,
    /// Evaluation challenge, set by the third round.
    pub zeta: Option<u64>,
}

/// The first round's message: the two permutation challenges.
pub struct FirstMsg {
    /// Permutation challenge.
    pub beta: u64,
    /// Permutation challenge.
    pub gamma: u64,
}

/// The second round's message: the combination challenge.
pub struct SecondMsg {
    /// Combination challenge.
    pub alpha: u64,
}

/// The third round's message: the evaluation point.
pub struct ThirdMsg {
    /// Evaluation challenge.
    pub zeta: u64,
}

/// The challenges in the state are reduced residues.
pub open spec fn state_felt(vs: &VerifierState) -> bool {
    &&& (vs.alpha matches Some(a) ==> is_felt(a))
    &&& (vs.beta matches Some(b) ==> is_felt(b))
    &&& (vs.gamma matches Some(g) ==> is_felt(g))
    &&& (vs.zeta matches Some(z) ==> is_felt(z))
}

/// The multi-round algebraic protocol, seen from the verifier's side.
pub struct AHPForPLONK {}

impl AHPForPLONK {
    /// Opens a fresh proof session over `info`: every challenge empty.
    /// Any number of independent sessions may reference the same info.
    pub fn verifier_init(info: &IndexInfo) -> (r: Result<VerifierState, Error>)
        ensures
            r matches Ok(vs) ==> vs.info == *info && vs.alpha is None && vs.beta is None
                && vs.gamma is None && vs.zeta is None,
            r is Ok,
    {
        Ok(VerifierState { info: *info, alpha: None, beta: None, gamma: None, zeta: None })
    }

    /// First round, scripted: records the supplied permutation challenges
    /// and hands them back as the round message. Rejected unless the
    /// session is fresh.
    pub fn verifier_first_round(vs: VerifierState, beta_new: u64, gamma_new: u64) -> (r: Result<
        (VerifierState, FirstMsg),
        Error,
    >)
        requires
            is_felt(beta_new),
            is_felt(gamma_new),
        ensures
            r is Ok <==> vs.beta is None && vs.gamma is None,
            r matches Ok(p) ==> p.0 == (VerifierState {
                beta: Some(beta_new),
                gamma: Some(gamma_new),
                ..vs
            }) && p.1.beta == beta_new && p.1.gamma == gamma_new,
            r is Err ==> r == Result::<(VerifierState, FirstMsg), Error>::Err(Error::OutOfOrder),
    {
        if vs.beta.is_some() || vs.gamma.is_some() {
            return Err(Error::OutOfOrder);
        }
        let vs2: VerifierState = VerifierState {
            beta: Some(beta_new),
            gamma: Some(gamma_new),
            ..vs
        };
        Ok((vs2, FirstMsg { beta: beta_new, gamma: gamma_new }))
    }

    /// Second round, scripted: records the combination challenge.
    /// Rejected before the first round has run, or when run twice.
    pub fn verifier_second_round(vs: VerifierState, alpha_new: u64) -> (r: Result<
        (VerifierState, SecondMsg),
        Error,
    >)
        requires
            is_felt(alpha_new),
        ensures
            r is Ok <==> vs.beta is Some && vs.gamma is Some && vs.alpha is None,
            r matches Ok(p) ==> p.0 == (VerifierState { alpha: Some(alpha_new), ..vs })
                && p.1.alpha == alpha_new,
            r is Err ==> r == Result::<(VerifierState, SecondMsg), Error>::Err(Error::OutOfOrder),
    {
        if vs.beta.is_none() || vs.gamma.is_none() || vs.alpha.is_some() {
            return Err(Error::OutOfOrder);
        }
        let vs2: VerifierState = VerifierState { alpha: Some(alpha_new), ..vs };
        Ok((vs2, SecondMsg { alpha: alpha_new }))
    }

    /// Third round, scripted: records the evaluation challenge.
    /// Rejected before the second round has run, or when run twice.
    pub fn verifier_third_round(vs: VerifierState, zeta_new: u64) -> (r: Result<
        (VerifierState, ThirdMsg),
        Error,
    >)
        requires
            is_felt(zeta_new),
        ensures
            r is Ok <==> vs.alpha is Some && vs.zeta is None,
            r matches Ok(p) ==> p.0 == (VerifierState { zeta: Some(zeta_new), ..vs }) && p.1.zeta
                == zeta_new,
            r is Err ==> r == Result::<(VerifierState, ThirdMsg), Error>::Err(Error::OutOfOrder),
    {
        if vs.alpha.is_none() || vs.zeta.is_some() {
            return Err(Error::OutOfOrder);
        }
        let vs2: VerifierState = VerifierState { zeta: Some(zeta_new), ..vs };
        Ok((vs2, ThirdMsg { zeta: zeta_new }))
    }

    /// First round, non-interactive: the permutation challenges are drawn
    /// from the transcript, which must already have absorbed the first
    /// round's commitments.
    pub fn verifier_first_round_transcript(vs: VerifierState, rng: &mut FiatShamirRng) -> (r:
        Result<(VerifierState, FirstMsg), Error>)
        ensures
            r is Ok <==> vs.beta is None && vs.gamma is None,
            r matches Ok(p) ==> p.1.beta == squeezed_value(old(rng).view()) && p.1.gamma
                == squeezed_value(squeezed_state(old(rng).view())) && p.0 == (VerifierState {
                beta: Some(p.1.beta),
                gamma: Some(p.1.gamma),
                ..vs
            }),
            final(rng).view() == squeezed_state(squeezed_state(old(rng).view())),
            r is Err ==> r == Result::<(VerifierState, FirstMsg), Error>::Err(Error::OutOfOrder),
    {
        let beta: u64 = rng.squeeze_field_element();
        let gamma: u64 = rng.squeeze_field_element();
        Self::verifier_first_round(vs, beta, gamma)
    }

    /// Second round, non-interactive: the combination challenge is drawn
    /// from the transcript.
    pub fn verifier_second_round_transcript(vs: VerifierState, rng: &mut FiatShamirRng) -> (r:
        Result<(VerifierState, SecondMsg), Error>)
        ensures
            r is Ok <==> vs.beta is Some && vs.gamma is Some && vs.alpha is None,
            r matches Ok(p) ==> p.1.alpha == squeezed_value(old(rng).view()) && p.0
                == (VerifierState { alpha: Some(p.1.alpha), ..vs }),
            final(rng).view() == squeezed_state(old(rng).view()),
            r is Err ==> r == Result::<(VerifierState, SecondMsg), Error>::Err(Error::OutOfOrder),
    {
        let alpha: u64 = rng.squeeze_field_element();
        Self::verifier_second_round(vs, alpha)
    }

    /// Third round, non-interactive: the evaluation challenge is drawn
    /// from the transcript.
    pub fn verifier_third_round_transcript(vs: VerifierState, rng: &mut FiatShamirRng) -> (r:
        Result<(VerifierState, ThirdMsg), Error>)
        ensures
            r is Ok <==> vs.alpha is Some && vs.zeta is None,
            r matches Ok(p) ==> p.1.zeta == squeezed_value(old(rng).view()) && p.0
                == (VerifierState { zeta: Some(p.1.zeta), ..vs }),
            final(rng).view() == squeezed_state(old(rng).view()),
            r is Err ==> r == Result::<(VerifierState, ThirdMsg), Error>::Err(Error::OutOfOrder),
    {
        let zeta: u64 = rng.squeeze_field_element();
        Self::verifier_third_round(vs, zeta)
    }

    /// The openings the verifier demands: every wire at `zeta`, the
    /// permutation accumulator at the shifted point `zeta * g`, the two
    /// opened permutation columns, the switch selector, the chunked quotient
    /// and the linearization, all at `zeta`.
    pub fn verifier_query_set(vs: &VerifierState) -> (r: Result<Vec<(String, u64)>, Error>)
        requires
            state_felt(vs),
        ensures
            r is Ok <==> vs.zeta is Some && crate::domain::domain_ok(vs.info.n as int),
            r == Result::<Vec<(String, u64)>, Error>::Err(Error::OutOfOrder) <==> vs.zeta is None,
            r == Result::<Vec<(String, u64)>, Error>::Err(Error::ArithmeticFailure)
                <==> vs.zeta is Some && !crate::domain::domain_ok(vs.info.n as int),
            r matches Ok(q) ==> vs.zeta matches Some(zeta) && q@.len() == 9 && q@[0].0@ == "w_0"@
                && q@[0].1 == zeta && q@[1].0@ == "w_1"@ && q@[1].1 == zeta && q@[2].0@ == "w_2"@
                && q@[2].1 == zeta && q@[3].0@ == "w_3"@ && q@[3].1 == zeta && q@[4].0@ == "z"@
                && q@[4].1 == fmul(
                fpow(
                    crate::field::TWO_ADIC_ROOT as int,
                    (0x8000000int / vs.info.n as int) as nat,
                ),
                zeta as int,
            ) && q@[5].0@ == "sigma_0"@ && q@[5].1 == zeta && q@[6].0@ == "sigma_1"@ && q@[6].1
                == zeta && q@[7].0@ == "t"@ && q@[7].1 == zeta && q@[8].0@ == "r"@ && q@[8].1
                == zeta,
    {
        let zeta: u64 = match vs.zeta {
            Some(z) => z,
            None => {
                return Err(Error::OutOfOrder);
            },
        };
        let d: Domain = match Domain::new(vs.info.n) {
            Some(d) => d,
            None => {
                return Err(Error::ArithmeticFailure);
            },
        };
        let sp: u64 = fp_mul(d.g, zeta);
        let mut q: Vec<(String, u64)> = Vec::new();
        q.push(("w_0".to_owned(), zeta));
        q.push(("w_1".to_owned(), zeta));
        q.push(("w_2".to_owned(), zeta));
        q.push(("w_3".to_owned(), zeta));
        q.push(("z".to_owned(), sp));
        q.push(("sigma_0".to_owned(), zeta));
        q.push(("sigma_1".to_owned(), zeta));
        q.push(("t".to_owned(), zeta));
        q.push(("r".to_owned(), zeta));
        Ok(q)
    }

    /// The terminal check: recomputes the algebraic identity
    /// `t(zeta) * v(zeta) == r(zeta) + pi(zeta) * q_arith(zeta)
    ///  - permutation_term(zeta) - L1(zeta) * alpha^2`
    /// from the proof's evaluation set alone, and accepts exactly when
    /// equality holds over the field.
    pub fn verifier_equality_check(
        vs: &VerifierState,
        evaluations: &Evaluations,
        public_inputs: &Vec<u64>,
    ) -> (r: Result<bool, Error>)
        requires
            state_felt(vs),
            evals_wf(evaluations.entries@),
            is_felt_seq(public_inputs@),
            public_inputs@.len() <= vs.info.n,
        ensures
            r == Result::<bool, Error>::Err(Error::OutOfOrder) <==> !(vs.alpha is Some
                && vs.beta is Some && vs.gamma is Some && vs.zeta is Some),
            r matches Ok(b) ==> (vs.alpha matches Some(alpha) && vs.beta matches Some(beta)
                && vs.gamma matches Some(gamma) && vs.zeta matches Some(zeta) && lookup(
                evaluations.entries@,
                "w_0"@,
                zeta,
            ) matches Some(w_0) && lookup(evaluations.entries@, "w_1"@, zeta) matches Some(w_1)
                && lookup(evaluations.entries@, "w_2"@, zeta) matches Some(w_2) && lookup(
                evaluations.entries@,
                "w_3"@,
                zeta,
            ) matches Some(_) && lookup(
                evaluations.entries@,
                "z"@,
                fmul(domain_gen(vs.info.n as int), zeta as int) as u64,
            ) matches Some(z_shift) && lookup(evaluations.entries@, "sigma_0"@, zeta) matches Some(
                sigma_0,
            ) && lookup(evaluations.entries@, "sigma_1"@, zeta) matches Some(sigma_1) && lookup(
                evaluations.entries@,
                "q_arith"@,
                zeta,
            ) matches Some(q_arith) && lookup(evaluations.entries@, "t"@, zeta) matches Some(t)
                && lookup(evaluations.entries@, "r"@, zeta) matches Some(rv) && b
                == equality_holds(
                vs.info.n as int,
                alpha as int,
                beta as int,
                gamma as int,
                zeta as int,
                w_0 as int,
                w_1 as int,
                w_2 as int,
                z_shift as int,
                sigma_0 as int,
                sigma_1 as int,
                q_arith as int,
                t as int,
                rv as int,
                public_inputs@,
            )),
            (vs.alpha is Some && vs.beta is Some && vs.gamma is Some) ==> (vs.zeta matches Some(
                zeta,
            ) ==> (r is Ok <==> crate::domain::domain_ok(vs.info.n as int)
                && required_openings_present(
                evaluations.entries@,
                zeta,
                fmul(domain_gen(vs.info.n as int), zeta as int) as u64,
            ) && crate::domain::l1_ok(vs.info.n as int, zeta as int))),
            (vs.alpha is Some && vs.beta is Some && vs.gamma is Some) ==> (vs.zeta matches Some(
                zeta,
            ) ==> (r == Result::<bool, Error>::Err(Error::ArithmeticFailure)
                <==> !crate::domain::domain_ok(vs.info.n as int) || (required_openings_present(
                evaluations.entries@,
                zeta,
                fmul(domain_gen(vs.info.n as int), zeta as int) as u64,
            ) && !crate::domain::l1_ok(vs.info.n as int, zeta as int)))),
            (vs.alpha is Some && vs.beta is Some && vs.gamma is Some) ==> (vs.zeta matches Some(
                zeta,
            ) ==> (r == Result::<bool, Error>::Err(Error::MissingEvaluation)
                <==> crate::domain::domain_ok(vs.info.n as int) && !required_openings_present(
                evaluations.entries@,
                zeta,
                fmul(domain_gen(vs.info.n as int), zeta as int) as u64,
            ))),
    {
        let alpha: u64;
        let beta: u64;
        let gamma: u64;
        let zeta: u64;
        match (vs.alpha, vs.beta, vs.gamma, vs.zeta) {
            (Some(a), Some(b), Some(g), Some(z)) => {
                alpha = a;
                beta = b;
                gamma = g;
                zeta = z;
            },
            _ => {
                return Err(Error::OutOfOrder);
            },
        }
        let d: Domain = match Domain::new(vs.info.n) {
            Some(d) => d,
            None => {
                return Err(Error::ArithmeticFailure);
            },
        };
        let v_zeta: u64 = d.vanishing_eval(zeta);
        let pi_n: Vec<u64> = crate::domain::pad_to(public_inputs, d.n);
        proof {
            assert(pi_n@ =~= padded(public_inputs@, d.n as nat));
        }
        let pi_poly: crate::poly::DensePoly = d.interpolate(&pi_n);
        let pi_zeta: u64 = pi_poly.evaluate(&zeta);
        let sp: u64 = fp_mul(d.g, zeta);
        let w_0: u64 = match evaluations.get(&"w_0".to_owned(), zeta) {
            Some(v) => v,
            None => {
                return Err(Error::MissingEvaluation);
            },
        };
        let w_1: u64 = match evaluations.get(&"w_1".to_owned(), zeta) {
            Some(v) => v,
            None => {
                return Err(Error::MissingEvaluation);
            },
        };
        let w_2: u64 = match evaluations.get(&"w_2".to_owned(), zeta) {
            Some(v) => v,
            None => {
                return Err(Error::MissingEvaluation);
            },
        };
        // wire 3's opening is demanded like the others, though it enters
        // the identity only through the linearization value
        if evaluations.get(&"w_3".to_owned(), zeta).is_none() {
            return Err(Error::MissingEvaluation);
        }
        let z_shift: u64 = match evaluations.get(&"z".to_owned(), sp) {
            Some(v) => v,
            None => {
                return Err(Error::MissingEvaluation);
            },
        };
        let sigma_0: u64 = match evaluations.get(&"sigma_0".to_owned(), zeta) {
            Some(v) => v,
            None => {
                return Err(Error::MissingEvaluation);
            },
        };
        let sigma_1: u64 = match evaluations.get(&"sigma_1".to_owned(), zeta) {
            Some(v) => v,
            None => {
                return Err(Error::MissingEvaluation);
            },
        };
        let q_arith: u64 = match evaluations.get(&"q_arith".to_owned(), zeta) {
            Some(v) => v,
            None => {
                return Err(Error::MissingEvaluation);
            },
        };
        let t: u64 = match evaluations.get(&"t".to_owned(), zeta) {
            Some(v) => v,
            None => {
                return Err(Error::MissingEvaluation);
            },
        };
        let rv: u64 = match evaluations.get(&"r".to_owned(), zeta) {
            Some(v) => v,
            None => {
                return Err(Error::MissingEvaluation);
            },
        };
        let l1_zeta: u64 = match d.first_lagrange_eval(zeta) {
            Some(v) => v,
            None => {
                return Err(Error::ArithmeticFailure);
            },
        };
        proof {
            lemma_lookup_felt(evaluations.entries@, "w_0"@, zeta);
            lemma_lookup_felt(evaluations.entries@, "w_1"@, zeta);
            lemma_lookup_felt(evaluations.entries@, "w_2"@, zeta);
            lemma_lookup_felt(evaluations.entries@, "w_3"@, zeta);
            lemma_lookup_felt(evaluations.entries@, "z"@, sp);
            lemma_lookup_felt(evaluations.entries@, "sigma_0"@, zeta);
            lemma_lookup_felt(evaluations.entries@, "sigma_1"@, zeta);
            lemma_lookup_felt(evaluations.entries@, "q_arith"@, zeta);
            lemma_lookup_felt(evaluations.entries@, "t"@, zeta);
            lemma_lookup_felt(evaluations.entries@, "r"@, zeta);
        }
        let lhs: u64 = fp_mul(t, v_zeta);
        let f0: u64 = crate::indexer::sigma_factor_exec(w_0, sigma_0, beta, gamma);
        let f1: u64 = crate::indexer::sigma_factor_exec(w_1, sigma_1, beta, gamma);
        let f2: u64 = fp_add(w_2, gamma);
        let perm_sub: u64 = fp_mul(alpha, fp_mul(fp_mul(fp_mul(f0, f1), f2), z_shift));
        let bound_sub: u64 = fp_mul(fp_mul(alpha, alpha), l1_zeta);
        let rhs: u64 = fp_sub(fp_sub(fp_add(rv, fp_mul(pi_zeta, q_arith)), perm_sub), bound_sub);
        proof {
            assert(pi_poly.coeffs@ =~= pi_coeffs(
                public_inputs@,
                vs.info.n as nat,
                finv(domain_gen(vs.info.n as int)),
                finv(vs.info.n as int),
            ));
        }
        Ok(lhs == rhs)
    }
}

/// The coefficients of the interpolated public-input polynomial.
pub open spec fn pi_coeffs(pi: Seq<u64>, n: nat, g_inv: int, n_inv: int) -> Seq<u64> {
    Seq::new(n, |j: int| idft_coeff(padded(pi, n), g_inv, n_inv, j as nat) as u64)
}

/// The first Lagrange basis polynomial of the size-`n` domain at `zeta`:
/// `(zeta^n - 1) / (n * (zeta - 1))`, and 1 at the degenerate point.
pub open spec fn l1_at(n: int, zeta: int) -> int {
    if zeta == 1 {
        1
    } else {
        fmul(fsub(fpow(zeta, n as nat), 1), finv(fmul(n, fsub(zeta, 1))))
    }
}

/// The terminal identity, over the opened values and the recomputed
/// public-input and Lagrange evaluations.
pub open spec fn equality_holds(
    n: int,
    alpha: int,
    beta: int,
    gamma: int,
    zeta: int,
    w_0: int,
    w_1: int,
    w_2: int,
    z_shift: int,
    sigma_0: int,
    sigma_1: int,
    q_arith: int,
    t: int,
    rv: int,
    pi: Seq<u64>,
) -> bool {
    let v_zeta = fsub(fpow(zeta, n as nat), 1);
    let pi_zeta = poly_eval(
        pi_coeffs(pi, n as nat, finv(domain_gen(n)), finv(n)),
        zeta,
    );
    let l1_zeta = l1_at(n, zeta);
    let perm_sub = fmul(
        alpha,
        fmul(
            fmul(
                fmul(
                    sigma_factor(w_0, sigma_0, beta, gamma),
                    sigma_factor(w_1, sigma_1, beta, gamma),
                ),
                fadd(w_2, gamma),
            ),
            z_shift,
        ),
    );
    let bound_sub = fmul(fmul(alpha, alpha), l1_zeta);
    fmul(t, v_zeta) == fsub(fsub(fadd(rv, fmul(pi_zeta, q_arith)), perm_sub), bound_sub)
}

} // verus!
