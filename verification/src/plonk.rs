//! The top-level orchestrator: `setup` delegates to the commitment
//! scheme, `keygen` runs the indexer and commits to every index
//! polynomial, `prove` drives the three-round protocol non-interactively
//! against the Fiat-Shamir transcript, and `verify` replays the
//! transcript from the proof's commitments and runs the terminal check.
use vstd::prelude::*;

use crate::commit::{commit, commitment_spec, concat_bytes, flatten_commitments, setup as pc_setup,
    trim, CommitterKey, SchemeVerifierKey, UniversalParams};
use crate::composer::Composer;
use crate::indexer::{padded, IndexInfo, PreprocessorKeys};
use crate::poly::is_felt_seq;
use crate::prover::{interp_coeffs, FirstOracles, Prover, SecondOracles, ThirdOracles};
use crate::rounds::{evals_wf, AHPForPLONK, Evaluations, VerifierState};
use crate::transcript::{
    absorbed_state, seeded_state, ser_u64s, squeezed_state, squeezed_value, FiatShamirRng,
};
use crate::field::{fpow, fsub, inv_ok, is_felt, MULT_GEN};
use crate::Error;

verus! {

/// The domain-separation constant: the ASCII bytes of the protocol name,
/// which must match bit for bit between prover and verifier.
pub open spec fn protocol_name_spec() -> Seq<u8> {
    seq![80u8, 76u8, 79u8, 78u8, 75u8]
}

/// The protocol-name bytes, executably.
pub fn protocol_name() -> (r: Vec<u8>)
    ensures
        r@ == protocol_name_spec(),
{
    let mut v: Vec<u8> = Vec::new();
    v.push(80);
    v.push(76);
    v.push(79);
    v.push(78);
    v.push(75);
    proof {
        assert(v@ =~= protocol_name_spec());
    }
    v
}

/// The transcript seed: protocol name, then the serialized public input.
pub open spec fn protocol_seed(pi: Seq<u64>) -> Seq<u8> {
    protocol_name_spec() + ser_u64s(pi)
}

/// Transcript state after absorbing the first round's commitments.
pub open spec fn state_after_first(pi: Seq<u64>, c1: Seq<u8>) -> Seq<u8> {
    absorbed_state(seeded_state(protocol_seed(pi)), c1)
}

/// The first permutation challenge.
pub open spec fn derived_beta(pi: Seq<u64>, c1: Seq<u8>) -> int {
    squeezed_value(state_after_first(pi, c1))
}

/// The second permutation challenge.
pub open spec fn derived_gamma(pi: Seq<u64>, c1: Seq<u8>) -> int {
    squeezed_value(squeezed_state(state_after_first(pi, c1)))
}

/// Transcript state after absorbing the second round's commitments.
pub open spec fn state_after_second(pi: Seq<u64>, c1: Seq<u8>, c2: Seq<u8>) -> Seq<u8> {
    absorbed_state(squeezed_state(squeezed_state(state_after_first(pi, c1))), c2)
}

/// The combination challenge.
pub open spec fn derived_alpha(pi: Seq<u64>, c1: Seq<u8>, c2: Seq<u8>) -> int {
    squeezed_value(state_after_second(pi, c1, c2))
}

/// Transcript state after absorbing the third round's commitments.
pub open spec fn state_after_third(pi: Seq<u64>, c1: Seq<u8>, c2: Seq<u8>, c3: Seq<u8>) -> Seq<
    u8,
> {
    absorbed_state(squeezed_state(state_after_second(pi, c1, c2)), c3)
}

/// The evaluation challenge.
pub open spec fn derived_zeta(pi: Seq<u64>, c1: Seq<u8>, c2: Seq<u8>, c3: Seq<u8>) -> int {
    squeezed_value(state_after_third(pi, c1, c2, c3))
}

/// Two transcripts fed the same public input and the same commitment
/// bytes derive the same four challenges: the protocol is deterministic,
/// so independent runs over identical data produce identical proofs.
pub proof fn lemma_challenges_deterministic(
    pi1: Seq<u64>,
    pi2: Seq<u64>,
    c1a: Seq<u8>,
    c1b: Seq<u8>,
    c2a: Seq<u8>,
    c2b: Seq<u8>,
    c3a: Seq<u8>,
    c3b: Seq<u8>,
)
    requires
        pi1 == pi2,
        c1a == c1b,
        c2a == c2b,
        c3a == c3b,
    ensures
        derived_beta(pi1, c1a) == derived_beta(pi2, c1b),
        derived_gamma(pi1, c1a) == derived_gamma(pi2, c1b),
        derived_alpha(pi1, c1a, c2a) == derived_alpha(pi2, c1b, c2b),
        derived_zeta(pi1, c1a, c2a, c3a) == derived_zeta(pi2, c1b, c2b, c3b),
{
}

/// Appends `b` to `a`.
pub fn append_bytes(a: &mut Vec<u8>, b: &Vec<u8>)
    ensures
        final(a)@ == old(a)@ + b@,
{
    let mut i: usize = 0;
    while i < b.len()
        invariant
            i <= b@.len(),
            a@ == old(a)@ + b@.subrange(0, i as int),
        decreases b@.len() - i,
    {
        a.push(b[i]);
        proof {
            assert(a@ =~= old(a)@ + b@.subrange(0, i + 1));
        }
        i = i + 1;
    }
    proof {
        assert(b@.subrange(0, b@.len() as int) =~= b@);
        assert(a@ =~= old(a)@ + b@);
    }
}

/// The prover's key for one circuit: the index and the trimmed
/// commitment key. Built once; read-only for every later proof.
pub struct ProverKey {
    /// The preprocessed index.
    pub keys: PreprocessorKeys,
    /// The commitment key trimmed to the index's degree.
    pub ck: CommitterKey,
}

/// The public, distributable verification key: size metadata, the
/// commitments to every index polynomial, and the scheme's key.
pub struct VerifierKey {
    /// Circuit-size metadata.
    pub info: IndexInfo,
    /// Commitments to the ten index polynomials, in commitment order.
    pub comms: Vec<Vec<u8>>,
    /// The commitment scheme's verification key.
    pub rk: SchemeVerifierKey,
}

/// A complete proof: each round's commitments in order, and the
/// evaluation set. Immutable once constructed.
pub struct Proof {
    /// Commitments to the four wire polynomials.
    pub first_comms: Vec<Vec<u8>>,
    /// Commitment to the permutation accumulator.
    pub second_comms: Vec<Vec<u8>>,
    /// Commitments to the four quotient chunks.
    pub third_comms: Vec<Vec<u8>>,
    /// The openings the verifier needs.
    pub evals: Evaluations,
}

/// Runs the third round and the final evaluation step: commits the
/// quotient chunks, absorbs them, draws the query point and packages the
/// proof. Split out of `prove` so each half carries its own proof.
#[verifier::rlimit(100)]
#[verifier::spinoff_prover]
fn finish_proof(
    p: &mut Prover,
    v2: VerifierState,
    second_msg: &crate::rounds::SecondMsg,
    fs_rng: &mut FiatShamirRng,
    pk: &ProverKey,
    first_oracles: &FirstOracles,
    second_oracles: &SecondOracles,
    first_comms: Vec<Vec<u8>>,
    second_comms: Vec<Vec<u8>>,
) -> (r: Result<Proof, Error>)
    requires
        first_oracles.w_0.wf(),
        first_oracles.w_1.wf(),
        first_oracles.w_2.wf(),
        first_oracles.w_3.wf(),
        second_oracles.z.wf(),
        old(p).wf(),
        pk.keys.wf(),
        old(p).consistent_with(&pk.keys),
        pk.ck.supported_degree == pk.keys.info.n,
        old(p).beta is Some,
        old(p).gamma is Some,
        old(p).alpha is None,
        old(p).wires_ready(),
        old(p).accumulator_ready(),
        is_felt(second_msg.alpha),
        v2.alpha is Some,
        v2.zeta is None,
    ensures
        r is Err ==> r == Result::<Proof, Error>::Err(Error::ArithmeticFailure),
        r is Ok <==> (forall|i: int|
            0 <= i < old(p).domain_4n.n ==> inv_ok(
                #[trigger] fsub(
                    fpow(old(p).coset4@[i] as int, old(p).domain_n.n as nat),
                    1,
                ),
            )) && inv_ok(MULT_GEN as int),
        r matches Ok(proof) ==> proof.first_comms@ == first_comms@ && proof.second_comms@
            == second_comms@ && proof.third_comms@.len() == 4 && evals_wf(proof.evals.entries@)
            && proof.evals.entries@.len() == 10 && proof.evals.entries@[0].1 == squeezed_value(
            absorbed_state(old(fs_rng).view(), concat_bytes(proof.third_comms@)),
        ) as u64 && proof.evals.entries@[4].1 == crate::field::fmul(
            old(p).domain_n.g as int,
            proof.evals.entries@[0].1 as int,
        ) as u64 && crate::rounds::required_openings_present(
            proof.evals.entries@,
            proof.evals.entries@[0].1,
            proof.evals.entries@[4].1,
        ),
{
        let third_oracles: ThirdOracles = match p.third_round(second_msg, &pk.keys) {
            Ok(o) => o,
            Err(e) => {
                proof {
                    assert(p.beta is Some && p.gamma is Some && p.alpha is None
                        && p.w_0_4n@.len() == p.domain_4n.n && p.z_4n@.len() == p.domain_4n.n
                        && p.z_shift_4n@.len() == p.domain_4n.n);
                    assert(e == Error::ArithmeticFailure);
                }
                return Err(e);
            },
        };
        let third_comms: Vec<Vec<u8>> = match commit(&pk.ck, &third_oracles.iter()) {
            Ok(c) => c,
            Err(e) => {
                proof {
                    assert(false);
                }
                return Err(e);
            },
        };
        fs_rng.absorb(&flatten_commitments(&third_comms));
        let (_v3, third_msg): (VerifierState, crate::rounds::ThirdMsg) =
            match AHPForPLONK::verifier_third_round_transcript(v2, fs_rng) {
            Ok(p) => p,
            Err(e) => {
                proof {
                    assert(false);
                }
                return Err(e);
            },
        };
        let evals: Evaluations = match p.evaluate(
            &third_msg,
            &pk.keys,
            &first_oracles,
            &second_oracles,
            &third_oracles,
        ) {
            Ok(e) => e,
            Err(e) => {
                proof {
                    assert(p.alpha is Some && p.beta is Some && p.gamma is Some);
                    assert(e == Error::ArithmeticFailure);
                }
                return Err(e);
            },
        };
        proof {
            crate::rounds::lemma_query_set_covered(
                evals.entries@,
                third_msg.zeta,
                crate::field::fmul(p.domain_n.g as int, third_msg.zeta as int) as u64,
            );
        }
        Ok(Proof { first_comms, second_comms, third_comms, evals })
    }

/// Opens a proof session and runs the first two rounds: wire
/// polynomials, their commitments, the transcript-derived permutation
/// challenges and the accumulator. Split out of `prove` so each stage
/// carries its own proof.
#[verifier::rlimit(100)]
#[verifier::spinoff_prover]
fn open_rounds(pk: &ProverKey, cs: &Composer) -> (r: Result<
    (
        Prover,
        VerifierState,
        FiatShamirRng,
        FirstOracles,
        SecondOracles,
        crate::rounds::SecondMsg,
        Vec<Vec<u8>>,
        Vec<Vec<u8>>,
    ),
    Error,
>)
    requires
        cs.wf(),
        pk.keys.wf(),
        cs.size_spec() <= pk.keys.info.n,
        pk.ck.supported_degree == pk.keys.info.n,
    ensures
        r is Err ==> r == Result::<
            (
                Prover,
                VerifierState,
                FiatShamirRng,
                FirstOracles,
                SecondOracles,
                crate::rounds::SecondMsg,
                Vec<Vec<u8>>,
                Vec<Vec<u8>>,
            ),
            Error,
        >::Err(Error::ArithmeticFailure),
        r is Ok <==> prove_acc_ok(cs, &pk.keys),
        r matches Ok(t) ==> t.0.wf() && t.0.consistent_with(&pk.keys) && t.0.wires_ready()
            && t.0.accumulator_ready() && t.0.beta is Some && t.0.gamma is Some
            && t.0.alpha is None && t.1.alpha is Some && t.1.zeta is None && t.3.w_0.wf()
            && t.3.w_1.wf() && t.3.w_2.wf() && t.3.w_3.wf() && t.4.z.wf() && is_felt(t.5.alpha)
            && t.6@.len() == 4 && t.7@.len() == 1 && (forall|j: int|
            0 <= j < 4 ==> (#[trigger] t.6@[j]@) == commitment_spec(wire_poly_of(cs, &pk.keys, j)))
            && t.2.view() == squeezed_state(
            state_after_second(
                padded(cs.pi@, pk.keys.info.n as nat),
                concat_bytes(t.6@),
                concat_bytes(t.7@),
            ),
        ),
{
        let mut p: Prover = match Prover::init(cs, &pk.keys) {
            Ok(p) => p,
            Err(e) => {
                proof {
                    assert(false);
                }
                return Err(e);
            },
        };
        let v0: VerifierState = match AHPForPLONK::verifier_init(&pk.keys.info) {
            Ok(v) => v,
            Err(e) => {
                proof {
                    assert(false);
                }
                return Err(e);
            },
        };
        let pi: Vec<u64> = p.public_input();
        let mut seed: Vec<u8> = protocol_name();
        let pi_bytes: Vec<u8> = crate::transcript::ser_u64_vec(&pi);
        append_bytes(&mut seed, &pi_bytes);
        let mut fs_rng: FiatShamirRng = FiatShamirRng::from_seed(&seed);
        let first_oracles: FirstOracles = match p.first_round() {
            Ok(o) => o,
            Err(e) => {
                proof {
                    assert(false);
                }
                return Err(e);
            },
        };
        let first_comms: Vec<Vec<u8>> = match commit(&pk.ck, &first_oracles.iter()) {
            Ok(c) => c,
            Err(e) => {
                proof {
                    assert(false);
                }
                return Err(e);
            },
        };
        proof {
            crate::commit::lemma_concat_four(first_comms@);
            assert(seed@ == protocol_seed(padded(cs.pi@, pk.keys.info.n as nat)));
            assert(concat_bytes(first_comms@) == c1_of(cs, &pk.keys));
        }
        fs_rng.absorb(&flatten_commitments(&first_comms));
        let (v1, first_msg): (VerifierState, crate::rounds::FirstMsg) =
            match AHPForPLONK::verifier_first_round_transcript(v0, &mut fs_rng) {
            Ok(p) => p,
            Err(e) => {
                proof {
                    assert(false);
                }
                return Err(e);
            },
        };
        proof {
            assert(first_msg.beta as int == beta_of(cs, &pk.keys));
            assert(first_msg.gamma as int == gamma_of(cs, &pk.keys));
            lemma_acc_ok_transfer(&p, &pk.keys, cs, first_msg.beta, first_msg.gamma);
        }
        let second_oracles: SecondOracles = match p.second_round(&first_msg, &pk.keys) {
            Ok(o) => o,
            Err(e) => {
                proof {
                    assert(p.beta is None && p.gamma is None && p.w_0_4n@.len() != 0);
                    assert(e == Error::ArithmeticFailure);
                }
                return Err(e);
            },
        };
        let second_comms: Vec<Vec<u8>> = match commit(&pk.ck, &second_oracles.iter()) {
            Ok(c) => c,
            Err(e) => {
                proof {
                    assert(false);
                }
                return Err(e);
            },
        };
        fs_rng.absorb(&flatten_commitments(&second_comms));
        let (v2, second_msg): (VerifierState, crate::rounds::SecondMsg) =
            match AHPForPLONK::verifier_second_round_transcript(v1, &mut fs_rng) {
            Ok(p) => p,
            Err(e) => {
                proof {
                    assert(false);
                }
                return Err(e);
            },
        };
    Ok((p, v2, fs_rng, first_oracles, second_oracles, second_msg, first_comms, second_comms))
}

/// The non-interactive argument, end to end.
pub struct Plonk {}

impl Plonk {
    /// Delegates to the commitment scheme's setup.
    pub fn setup(max_degree: usize) -> (r: Result<UniversalParams, Error>)
        ensures
            r matches Ok(p) ==> p.max_degree == max_degree,
            r is Ok,
    {
        Ok(pc_setup(max_degree))
    }

    /// Runs the indexer, checks the reference string is large enough,
    /// trims it, commits to every index polynomial and packages the two
    /// keys.
    pub fn keygen(srs: &UniversalParams, cs: &Composer, ks: [u64; 4]) -> (r: Result<
        (ProverKey, VerifierKey),
        Error,
    >)
        requires
            cs.wf(),
            forall|c: int| 0 <= c < 4 ==> is_felt(#[trigger] ks@[c]),
        ensures
            r is Ok <==> 0 < cs.size_spec() <= 0x1000000 && crate::domain::domain_ok(
                crate::domain::next_pow2(cs.size_spec()) as int,
            ) && crate::domain::domain_ok(4 * crate::domain::next_pow2(cs.size_spec()) as int)
                && srs.max_degree >= crate::domain::next_pow2(cs.size_spec()),
            r == Result::<(ProverKey, VerifierKey), Error>::Err(Error::AssignmentMissing)
                <==> cs.size_spec() == 0,
            r == Result::<(ProverKey, VerifierKey), Error>::Err(Error::ArithmeticFailure) <==> 0
                < cs.size_spec() <= 0x1000000 && !(crate::domain::domain_ok(
                crate::domain::next_pow2(cs.size_spec()) as int,
            ) && crate::domain::domain_ok(4 * crate::domain::next_pow2(cs.size_spec()) as int)),
            r == Result::<(ProverKey, VerifierKey), Error>::Err(Error::CircuitTooLarge)
                <==> cs.size_spec() > 0x1000000 || (0 < cs.size_spec() <= 0x1000000
                && crate::domain::domain_ok(crate::domain::next_pow2(cs.size_spec()) as int)
                && crate::domain::domain_ok(4 * crate::domain::next_pow2(cs.size_spec()) as int)
                && srs.max_degree < crate::domain::next_pow2(cs.size_spec())),
            r matches Ok(kp) ==> kp.0.keys.wf() && kp.0.keys.indexes(cs, ks) && cs.size_spec()
                <= kp.0.keys.info.n && kp.0.keys.info.n == crate::domain::next_pow2(cs.size_spec())
                && kp.0.keys.domain_n.g == crate::domain::domain_gen(kp.0.keys.info.n as int)
                && kp.0.keys.domain_n.g_inv == crate::field::finv(kp.0.keys.domain_n.g as int)
                && kp.0.keys.domain_n.n_inv == crate::field::finv(kp.0.keys.info.n as int)
                && kp.0.keys.domain_4n.g == crate::domain::domain_gen(4 * kp.0.keys.info.n as int)
                && kp.0.keys.domain_4n.g_inv == crate::field::finv(kp.0.keys.domain_4n.g as int)
                && kp.0.keys.domain_4n.n_inv == crate::field::finv(4 * kp.0.keys.info.n as int)
                && kp.0.ck.supported_degree == kp.0.keys.info.n && kp.1.info
                == kp.0.keys.info && kp.1.rk.supported_degree == kp.0.keys.info.n
                && kp.1.comms@.len() == 10 && srs.max_degree >= kp.0.keys.info.n && (forall|i: int|
                0 <= i < 10 ==> is_felt_seq(#[trigger] keygen_index_poly(&kp.0.keys, i)))
                && (forall|i: int|
                0 <= i < 10 ==> (#[trigger] kp.1.comms@[i]@) == commitment_spec(
                    keygen_index_poly(&kp.0.keys, i),
                )),
    {
        let keys: PreprocessorKeys = match PreprocessorKeys::generate(cs, ks) {
            Ok(k) => k,
            Err(e) => {
                return Err(e);
            },
        };
        if srs.max_degree() < keys.size() {
            return Err(Error::CircuitTooLarge);
        }
        let (ck, rk): (CommitterKey, SchemeVerifierKey) = match trim(srs, keys.size()) {
            Ok(p) => p,
            Err(e) => {
                return Err(e);
            },
        };
        let comms: Vec<Vec<u8>> = match commit(&ck, &keys.iter()) {
            Ok(c) => c,
            Err(e) => {
                return Err(e);
            },
        };
        let info: IndexInfo = keys.info();
        Ok((ProverKey { keys, ck }, VerifierKey { info, comms, rk }))
    }

    /// Drives the full round sequence: commits each round's oracles,
    /// absorbs the commitments, derives the next challenge from the
    /// transcript, and packages the commitments with the evaluation set.
    /// Everything is a fixed function of the key and the circuit, so two
    /// runs over the same data yield byte-identical proofs.
    #[verifier::rlimit(100)]
    #[verifier::spinoff_prover]
    pub fn prove(pk: &ProverKey, cs: &Composer) -> (r: Result<Proof, Error>)
        requires
            cs.wf(),
            pk.keys.wf(),
            cs.size_spec() <= pk.keys.info.n,
            pk.ck.supported_degree == pk.keys.info.n,
        ensures
            r is Err ==> r == Result::<Proof, Error>::Err(Error::ArithmeticFailure),
            r is Ok <==> prove_acc_ok(cs, &pk.keys) && prove_van_ok(&pk.keys) && inv_ok(
                MULT_GEN as int,
            ),
            r matches Ok(proof) ==> proof.first_comms@.len() == 4 && proof.second_comms@.len() == 1
                && proof.third_comms@.len() == 4 && evals_wf(proof.evals.entries@)
                && proof.evals.entries@.len() == 10 && (forall|j: int|
                0 <= j < 4 ==> (#[trigger] proof.first_comms@[j]@) == commitment_spec(
                    interp_coeffs(
                        padded(wire_column(cs, j), pk.keys.info.n as nat),
                        pk.keys.domain_n,
                    ),
                )) && proof.evals.entries@[0].1 == derived_zeta(
                padded(cs.pi@, pk.keys.info.n as nat),
                concat_bytes(proof.first_comms@),
                concat_bytes(proof.second_comms@),
                concat_bytes(proof.third_comms@),
            ) as u64 && proof.evals.entries@[4].1 == crate::field::fmul(
                pk.keys.domain_n.g as int,
                proof.evals.entries@[0].1 as int,
            ) as u64 && crate::rounds::lookup(
                proof.evals.entries@,
                "w_0"@,
                proof.evals.entries@[0].1,
            ) is Some && crate::rounds::lookup(
                proof.evals.entries@,
                "w_1"@,
                proof.evals.entries@[0].1,
            ) is Some && crate::rounds::lookup(
                proof.evals.entries@,
                "w_2"@,
                proof.evals.entries@[0].1,
            ) is Some && crate::rounds::lookup(
                proof.evals.entries@,
                "w_3"@,
                proof.evals.entries@[0].1,
            ) is Some && crate::rounds::lookup(
                proof.evals.entries@,
                "z"@,
                proof.evals.entries@[4].1,
            ) is Some && crate::rounds::lookup(
                proof.evals.entries@,
                "q_arith"@,
                proof.evals.entries@[0].1,
            ) is Some && crate::rounds::lookup(
                proof.evals.entries@,
                "sigma_0"@,
                proof.evals.entries@[0].1,
            ) is Some && crate::rounds::lookup(
                proof.evals.entries@,
                "sigma_1"@,
                proof.evals.entries@[0].1,
            ) is Some && crate::rounds::lookup(
                proof.evals.entries@,
                "t"@,
                proof.evals.entries@[0].1,
            ) is Some && crate::rounds::lookup(
                proof.evals.entries@,
                "r"@,
                proof.evals.entries@[0].1,
            ) is Some,
    {
        let (mut p, v2, mut fs_rng, first_oracles, second_oracles, second_msg, first_comms, second_comms): (
            Prover,
            VerifierState,
            FiatShamirRng,
            FirstOracles,
            SecondOracles,
            crate::rounds::SecondMsg,
            Vec<Vec<u8>>,
            Vec<Vec<u8>>,
        ) = match open_rounds(pk, cs) {
            Ok(t) => t,
            Err(e) => {
                return Err(e);
            },
        };
        proof {
            lemma_van_ok_transfer(&p, &pk.keys);
        }
        finish_proof(
            &mut p,
            v2,
            &second_msg,
            &mut fs_rng,
            pk,
            &first_oracles,
            &second_oracles,
            first_comms,
            second_comms,
        )
    }

    /// Verifies a proof: replays the transcript over the proof's
    /// commitments to re-derive the challenges, then runs the terminal
    /// equality check over the evaluation set. A proof whose evaluation
    /// set holds an unreduced value is rejected outright.
    pub fn verify(vk: &VerifierKey, public_input: &Vec<u64>, proof: &Proof) -> (r: Result<
        bool,
        Error,
    >)
        requires
            is_felt_seq(public_input@),
            public_input@.len() <= vk.info.n,
        ensures
            !evals_wf(proof.evals.entries@) ==> r == Result::<bool, Error>::Ok(false),
            (r is Ok && evals_wf(proof.evals.entries@)) ==> (verify_outcome(
                vk,
                public_input@,
                proof,
            ) matches Some(bb) && r == Result::<bool, Error>::Ok(bb)),
            r is Ok <==> !evals_wf(proof.evals.entries@) || (crate::domain::domain_ok(
                vk.info.n as int,
            ) && verify_openings_present(vk, public_input@, proof) && crate::domain::l1_ok(
                vk.info.n as int,
                derived_zeta(
                    padded(public_input@, vk.info.n as nat),
                    concat_bytes(proof.first_comms@),
                    concat_bytes(proof.second_comms@),
                    concat_bytes(proof.third_comms@),
                ),
            )),
            r == Result::<bool, Error>::Err(Error::ArithmeticFailure) <==> evals_wf(
                proof.evals.entries@,
            ) && (!crate::domain::domain_ok(vk.info.n as int) || (verify_openings_present(
                vk,
                public_input@,
                proof,
            ) && !crate::domain::l1_ok(
                vk.info.n as int,
                derived_zeta(
                    padded(public_input@, vk.info.n as nat),
                    concat_bytes(proof.first_comms@),
                    concat_bytes(proof.second_comms@),
                    concat_bytes(proof.third_comms@),
                ),
            ))),
            r == Result::<bool, Error>::Err(Error::MissingEvaluation) <==> evals_wf(
                proof.evals.entries@,
            ) && crate::domain::domain_ok(vk.info.n as int) && !verify_openings_present(
                vk,
                public_input@,
                proof,
            ),
    {
        if !check_evals_reduced(&proof.evals) {
            return Ok(false);
        }
        let mut seed: Vec<u8> = protocol_name();
        let pi_n: Vec<u64> = crate::domain::pad_to(public_input, vk.info.n);
        proof {
            assert(pi_n@ =~= padded(public_input@, vk.info.n as nat));
        }
        let pi_bytes: Vec<u8> = crate::transcript::ser_u64_vec(&pi_n);
        append_bytes(&mut seed, &pi_bytes);
        let mut fs_rng: FiatShamirRng = FiatShamirRng::from_seed(&seed);
        let v0: VerifierState = match AHPForPLONK::verifier_init(&vk.info) {
            Ok(v) => v,
            Err(e) => {
                return Err(e);
            },
        };
        fs_rng.absorb(&flatten_commitments(&proof.first_comms));
        let (v1, _first_msg): (VerifierState, crate::rounds::FirstMsg) =
            match AHPForPLONK::verifier_first_round_transcript(v0, &mut fs_rng) {
            Ok(p) => p,
            Err(e) => {
                return Err(e);
            },
        };
        fs_rng.absorb(&flatten_commitments(&proof.second_comms));
        let (v2, _second_msg): (VerifierState, crate::rounds::SecondMsg) =
            match AHPForPLONK::verifier_second_round_transcript(v1, &mut fs_rng) {
            Ok(p) => p,
            Err(e) => {
                return Err(e);
            },
        };
        fs_rng.absorb(&flatten_commitments(&proof.third_comms));
        let (v3, _third_msg): (VerifierState, crate::rounds::ThirdMsg) =
            match AHPForPLONK::verifier_third_round_transcript(v2, &mut fs_rng) {
            Ok(p) => p,
            Err(e) => {
                return Err(e);
            },
        };
        AHPForPLONK::verifier_equality_check(&v3, &proof.evals, public_input)
    }
}

/// Witness column `j` of the circuit, for stating which column each wire
/// commitment binds.
pub open spec fn wire_column(cs: &Composer, j: int) -> Seq<u64> {
    if j == 0 {
        cs.w_0@
    } else if j == 1 {
        cs.w_1@
    } else if j == 2 {
        cs.w_2@
    } else {
        cs.w_3@
    }
}

/// The interpolant of padded witness column `j`: what the first round
/// commits to.
pub open spec fn wire_poly_of(cs: &Composer, keys: &PreprocessorKeys, j: int) -> Seq<u64> {
    interp_coeffs(padded(wire_column(cs, j), keys.info.n as nat), keys.domain_n)
}

/// The first round's commitment bytes, in absorption order.
pub open spec fn c1_of(cs: &Composer, keys: &PreprocessorKeys) -> Seq<u8> {
    commitment_spec(wire_poly_of(cs, keys, 0)) + commitment_spec(wire_poly_of(cs, keys, 1))
        + commitment_spec(wire_poly_of(cs, keys, 2)) + commitment_spec(wire_poly_of(cs, keys, 3))
}

/// The first permutation challenge, as a function of circuit and index.
pub open spec fn beta_of(cs: &Composer, keys: &PreprocessorKeys) -> int {
    derived_beta(padded(cs.pi@, keys.info.n as nat), c1_of(cs, keys))
}

/// The second permutation challenge, as a function of circuit and index.
pub open spec fn gamma_of(cs: &Composer, keys: &PreprocessorKeys) -> int {
    derived_gamma(padded(cs.pi@, keys.info.n as nat), c1_of(cs, keys))
}

/// Every accumulator denominator under the derived challenges passes the
/// inverse check: the one data-dependent condition of the second round.
pub open spec fn prove_acc_ok(cs: &Composer, keys: &PreprocessorKeys) -> bool {
    forall|j: int|
        0 <= j < keys.info.n - 1 ==> inv_ok(
            #[trigger] crate::prover::den_of(
                padded(cs.w_0@, keys.info.n as nat),
                padded(cs.w_1@, keys.info.n as nat),
                padded(cs.w_2@, keys.info.n as nat),
                keys.permutation.sigma_0.evals_n@,
                keys.permutation.sigma_1.evals_n@,
                keys.permutation.sigma_2.evals_n@,
                beta_of(cs, keys),
                gamma_of(cs, keys),
                j,
            ),
        )
}

/// Every vanishing-polynomial value on the coset passes the inverse
/// check: the one condition of the quotient division.
pub open spec fn prove_van_ok(keys: &PreprocessorKeys) -> bool {
    forall|i: int|
        0 <= i < 4 * keys.info.n ==> inv_ok(
            #[trigger] fsub(
                fpow(
                    crate::indexer::coset_point(keys.domain_4n.g as int, i),
                    keys.info.n as nat,
                ),
                1,
            ),
        )
}

/// The accumulator-denominator condition reads the same whether stated
/// over the session state or over the circuit and index it was opened
/// for.
proof fn lemma_acc_ok_transfer(
    p: &Prover,
    keys: &PreprocessorKeys,
    cs: &Composer,
    beta: u64,
    gamma: u64,
)
    requires
        p.w_0_n@ == padded(cs.w_0@, keys.info.n as nat),
        p.w_1_n@ == padded(cs.w_1@, keys.info.n as nat),
        p.w_2_n@ == padded(cs.w_2@, keys.info.n as nat),
        p.domain_n.n == keys.info.n,
        beta as int == beta_of(cs, keys),
        gamma as int == gamma_of(cs, keys),
    ensures
        (forall|j: int|
            0 <= j < p.domain_n.n - 1 ==> inv_ok(
                #[trigger] crate::prover::acc_den_at(p, keys, beta as int, gamma as int, j),
            )) <==> prove_acc_ok(cs, keys),
{
    assert forall|j: int| 0 <= j < keys.info.n - 1 implies (#[trigger] crate::prover::acc_den_at(
        p,
        keys,
        beta as int,
        gamma as int,
        j,
    ) == crate::prover::den_of(
        padded(cs.w_0@, keys.info.n as nat),
        padded(cs.w_1@, keys.info.n as nat),
        padded(cs.w_2@, keys.info.n as nat),
        keys.permutation.sigma_0.evals_n@,
        keys.permutation.sigma_1.evals_n@,
        keys.permutation.sigma_2.evals_n@,
        beta_of(cs, keys),
        gamma_of(cs, keys),
        j,
    )) by {}
    if (forall|j: int|
        0 <= j < p.domain_n.n - 1 ==> inv_ok(
            #[trigger] crate::prover::acc_den_at(p, keys, beta as int, gamma as int, j),
        )) {
        assert forall|j: int|
            0 <= j < keys.info.n - 1 implies inv_ok(
                #[trigger] crate::prover::den_of(
                    padded(cs.w_0@, keys.info.n as nat),
                    padded(cs.w_1@, keys.info.n as nat),
                    padded(cs.w_2@, keys.info.n as nat),
                    keys.permutation.sigma_0.evals_n@,
                    keys.permutation.sigma_1.evals_n@,
                    keys.permutation.sigma_2.evals_n@,
                    beta_of(cs, keys),
                    gamma_of(cs, keys),
                    j,
                ),
            ) by {
            assert(inv_ok(crate::prover::acc_den_at(p, keys, beta as int, gamma as int, j)));
        }
    }
    if prove_acc_ok(cs, keys) {
        assert forall|j: int|
            0 <= j < p.domain_n.n - 1 implies inv_ok(
                #[trigger] crate::prover::acc_den_at(p, keys, beta as int, gamma as int, j),
            ) by {
            assert(inv_ok(crate::prover::den_of(
                padded(cs.w_0@, keys.info.n as nat),
                padded(cs.w_1@, keys.info.n as nat),
                padded(cs.w_2@, keys.info.n as nat),
                keys.permutation.sigma_0.evals_n@,
                keys.permutation.sigma_1.evals_n@,
                keys.permutation.sigma_2.evals_n@,
                beta_of(cs, keys),
                gamma_of(cs, keys),
                j,
            )));
        }
    }
}

/// The vanishing condition reads the same over the session's stored
/// coset points and over the index's domain generator.
proof fn lemma_van_ok_transfer(p: &Prover, keys: &PreprocessorKeys)
    requires
        p.wf(),
        p.consistent_with(keys),
        keys.wf(),
    ensures
        (forall|i: int|
            0 <= i < p.domain_4n.n ==> inv_ok(
                #[trigger] fsub(fpow(p.coset4@[i] as int, p.domain_n.n as nat), 1),
            )) <==> prove_van_ok(keys),
{
    assert forall|i: int| 0 <= i < 4 * keys.info.n implies (#[trigger] fsub(
        fpow(crate::indexer::coset_point(keys.domain_4n.g as int, i), keys.info.n as nat),
        1,
    ) == fsub(fpow(p.coset4@[i] as int, p.domain_n.n as nat), 1)) by {
        assert(p.coset4@[i] as int == crate::indexer::coset_point(keys.domain_4n.g as int, i));
    }
    if (forall|i: int|
        0 <= i < p.domain_4n.n ==> inv_ok(
            #[trigger] fsub(fpow(p.coset4@[i] as int, p.domain_n.n as nat), 1),
        )) {
        assert forall|i: int|
            0 <= i < 4 * keys.info.n implies inv_ok(
                #[trigger] fsub(
                    fpow(
                        crate::indexer::coset_point(keys.domain_4n.g as int, i),
                        keys.info.n as nat,
                    ),
                    1,
                ),
            ) by {
            assert(inv_ok(fsub(fpow(p.coset4@[i] as int, p.domain_n.n as nat), 1)));
        }
    }
    if prove_van_ok(keys) {
        assert forall|i: int|
            0 <= i < p.domain_4n.n implies inv_ok(
                #[trigger] fsub(fpow(p.coset4@[i] as int, p.domain_n.n as nat), 1),
            ) by {
            assert(inv_ok(fsub(
                fpow(
                    crate::indexer::coset_point(keys.domain_4n.g as int, i),
                    keys.info.n as nat,
                ),
                1,
            )));
        }
    }
}

/// Index polynomial `i` of the key, in commitment order: the seven
/// selectors, then the three permutation columns.
pub open spec fn keygen_index_poly(keys: &PreprocessorKeys, i: int) -> Seq<u64> {
    if i == 0 {
        keys.arithmetic.q_0.poly.poly_view()
    } else if i == 1 {
        keys.arithmetic.q_1.poly.poly_view()
    } else if i == 2 {
        keys.arithmetic.q_2.poly.poly_view()
    } else if i == 3 {
        keys.arithmetic.q_3.poly.poly_view()
    } else if i == 4 {
        keys.arithmetic.q_m.poly.poly_view()
    } else if i == 5 {
        keys.arithmetic.q_c.poly.poly_view()
    } else if i == 6 {
        keys.arithmetic.q_arith.poly.poly_view()
    } else if i == 7 {
        keys.permutation.sigma_0.poly.poly_view()
    } else if i == 8 {
        keys.permutation.sigma_1.poly.poly_view()
    } else {
        keys.permutation.sigma_2.poly.poly_view()
    }
}

/// Every opening `verify` will ask for is present in the proof's
/// evaluation set, at the transcript-derived query point and its shift.
pub open spec fn verify_openings_present(vk: &VerifierKey, pi: Seq<u64>, proof: &Proof) -> bool {
    let zeta = derived_zeta(
        padded(pi, vk.info.n as nat),
        concat_bytes(proof.first_comms@),
        concat_bytes(proof.second_comms@),
        concat_bytes(proof.third_comms@),
    );
    crate::rounds::required_openings_present(
        proof.evals.entries@,
        zeta as u64,
        crate::field::fmul(crate::domain::domain_gen(vk.info.n as int), zeta) as u64,
    )
}

/// Label `i` of the index's polynomials, in commitment order.
pub open spec fn index_label(keys: &PreprocessorKeys, i: int) -> Seq<char> {
    if i == 0 {
        keys.arithmetic.q_0.poly.label_view()
    } else if i == 1 {
        keys.arithmetic.q_1.poly.label_view()
    } else if i == 2 {
        keys.arithmetic.q_2.poly.label_view()
    } else if i == 3 {
        keys.arithmetic.q_3.poly.label_view()
    } else if i == 4 {
        keys.arithmetic.q_m.poly.label_view()
    } else if i == 5 {
        keys.arithmetic.q_c.poly.label_view()
    } else if i == 6 {
        keys.arithmetic.q_arith.poly.label_view()
    } else if i == 7 {
        keys.permutation.sigma_0.poly.label_view()
    } else if i == 8 {
        keys.permutation.sigma_1.poly.label_view()
    } else {
        keys.permutation.sigma_2.poly.label_view()
    }
}

/// The ten labels of a generated index are pairwise distinct, so the
/// batch handed to one commitment call never reuses a label.
pub proof fn lemma_index_labels_distinct(keys: &PreprocessorKeys, cs: &Composer, ks: [u64; 4])
    requires
        keys.indexes(cs, ks),
    ensures
        forall|i: int, j: int|
            #![trigger index_label(keys, i), index_label(keys, j)]
            0 <= i < j < 10 ==> index_label(keys, i) != index_label(keys, j),
{
    reveal_strlit("q_0");
    reveal_strlit("q_1");
    reveal_strlit("q_2");
    reveal_strlit("q_3");
    reveal_strlit("q_m");
    reveal_strlit("q_c");
    reveal_strlit("q_arith");
    reveal_strlit("sigma_0");
    reveal_strlit("sigma_1");
    reveal_strlit("sigma_2");
    assert("q_0"@[2] != "q_1"@[2] && "q_0"@ != "q_1"@);
    assert("q_0"@[2] != "q_2"@[2] && "q_0"@ != "q_2"@);
    assert("q_0"@[2] != "q_3"@[2] && "q_0"@ != "q_3"@);
    assert("q_0"@[2] != "q_m"@[2] && "q_0"@ != "q_m"@);
    assert("q_0"@[2] != "q_c"@[2] && "q_0"@ != "q_c"@);
    assert("q_1"@[2] != "q_2"@[2] && "q_1"@ != "q_2"@);
    assert("q_1"@[2] != "q_3"@[2] && "q_1"@ != "q_3"@);
    assert("q_1"@[2] != "q_m"@[2] && "q_1"@ != "q_m"@);
    assert("q_1"@[2] != "q_c"@[2] && "q_1"@ != "q_c"@);
    assert("q_2"@[2] != "q_3"@[2] && "q_2"@ != "q_3"@);
    assert("q_2"@[2] != "q_m"@[2] && "q_2"@ != "q_m"@);
    assert("q_2"@[2] != "q_c"@[2] && "q_2"@ != "q_c"@);
    assert("q_3"@[2] != "q_m"@[2] && "q_3"@ != "q_m"@);
    assert("q_3"@[2] != "q_c"@[2] && "q_3"@ != "q_c"@);
    assert("q_m"@[2] != "q_c"@[2] && "q_m"@ != "q_c"@);
    assert("q_arith"@[0] != "sigma_0"@[0] && "q_arith"@ != "sigma_0"@);
    assert("q_arith"@[0] != "sigma_1"@[0] && "q_arith"@ != "sigma_1"@);
    assert("q_arith"@[0] != "sigma_2"@[0] && "q_arith"@ != "sigma_2"@);
    assert("sigma_0"@[6] != "sigma_1"@[6] && "sigma_0"@ != "sigma_1"@);
    assert("sigma_0"@[6] != "sigma_2"@[6] && "sigma_0"@ != "sigma_2"@);
    assert("sigma_1"@[6] != "sigma_2"@[6] && "sigma_1"@ != "sigma_2"@);
}

/// Two indexings of the same circuit with the same tags agree on every
/// size and every index polynomial, so key generation is deterministic:
/// in particular both verification keys carry identical commitments.
pub proof fn lemma_keygen_deterministic(
    k1: &PreprocessorKeys,
    k2: &PreprocessorKeys,
    cs: &Composer,
    ks: [u64; 4],
)
    requires
        k1.wf(),
        k1.indexes(cs, ks),
        k1.info.n == crate::domain::next_pow2(cs.size_spec()),
        k1.domain_n.g == crate::domain::domain_gen(k1.info.n as int),
        k1.domain_n.g_inv == crate::field::finv(k1.domain_n.g as int),
        k1.domain_n.n_inv == crate::field::finv(k1.info.n as int),
        k1.domain_4n.g == crate::domain::domain_gen(4 * k1.info.n as int),
        k1.domain_4n.g_inv == crate::field::finv(k1.domain_4n.g as int),
        k1.domain_4n.n_inv == crate::field::finv(4 * k1.info.n as int),
        k2.wf(),
        k2.indexes(cs, ks),
        k2.info.n == crate::domain::next_pow2(cs.size_spec()),
        k2.domain_n.g == crate::domain::domain_gen(k2.info.n as int),
        k2.domain_n.g_inv == crate::field::finv(k2.domain_n.g as int),
        k2.domain_n.n_inv == crate::field::finv(k2.info.n as int),
        k2.domain_4n.g == crate::domain::domain_gen(4 * k2.info.n as int),
        k2.domain_4n.g_inv == crate::field::finv(k2.domain_4n.g as int),
        k2.domain_4n.n_inv == crate::field::finv(4 * k2.info.n as int),
    ensures
        k1.info.n == k2.info.n,
        k1.info.n_pi == k2.info.n_pi,
        k1.domain_n == k2.domain_n,
        k1.domain_4n == k2.domain_4n,
        forall|i: int|
            0 <= i < 10 ==> #[trigger] keygen_index_poly(k1, i) == keygen_index_poly(k2, i),
{
    assert(keygen_index_poly(k1, 0) =~= keygen_index_poly(k2, 0));
    assert(keygen_index_poly(k1, 1) =~= keygen_index_poly(k2, 1));
    assert(keygen_index_poly(k1, 2) =~= keygen_index_poly(k2, 2));
    assert(keygen_index_poly(k1, 3) =~= keygen_index_poly(k2, 3));
    assert(keygen_index_poly(k1, 4) =~= keygen_index_poly(k2, 4));
    assert(keygen_index_poly(k1, 5) =~= keygen_index_poly(k2, 5));
    assert(keygen_index_poly(k1, 6) =~= keygen_index_poly(k2, 6));
    assert(keygen_index_poly(k1, 7) =~= keygen_index_poly(k2, 7));
    assert(keygen_index_poly(k1, 8) =~= keygen_index_poly(k2, 8));
    assert(keygen_index_poly(k1, 9) =~= keygen_index_poly(k2, 9));
}

/// What `verify` decides, as a function of the key, the public input and
/// the proof: `None` where a required opening is absent, else the value
/// of the terminal identity under the transcript-derived challenges.
pub open spec fn verify_outcome(vk: &VerifierKey, pi: Seq<u64>, proof: &Proof) -> Option<bool> {
    let pin = padded(pi, vk.info.n as nat);
    let c1 = concat_bytes(proof.first_comms@);
    let c2 = concat_bytes(proof.second_comms@);
    let c3 = concat_bytes(proof.third_comms@);
    let beta = derived_beta(pin, c1);
    let gamma = derived_gamma(pin, c1);
    let alpha = derived_alpha(pin, c1, c2);
    let zeta = derived_zeta(pin, c1, c2, c3);
    let entries = proof.evals.entries@;
    let sp = crate::field::fmul(crate::domain::domain_gen(vk.info.n as int), zeta) as u64;
    if crate::rounds::lookup(entries, "w_0"@, zeta as u64) is Some && crate::rounds::lookup(
        entries,
        "w_1"@,
        zeta as u64,
    ) is Some && crate::rounds::lookup(entries, "w_2"@, zeta as u64) is Some
        && crate::rounds::lookup(entries, "w_3"@, zeta as u64) is Some && crate::rounds::lookup(
        entries,
        "z"@,
        sp,
    ) is Some && crate::rounds::lookup(entries, "sigma_0"@, zeta as u64) is Some
        && crate::rounds::lookup(entries, "sigma_1"@, zeta as u64) is Some
        && crate::rounds::lookup(entries, "q_arith"@, zeta as u64) is Some
        && crate::rounds::lookup(entries, "t"@, zeta as u64) is Some && crate::rounds::lookup(
        entries,
        "r"@,
        zeta as u64,
    ) is Some {
        Some(
            crate::rounds::equality_holds(
                vk.info.n as int,
                alpha,
                beta,
                gamma,
                zeta,
                crate::rounds::lookup(entries, "w_0"@, zeta as u64).unwrap() as int,
                crate::rounds::lookup(entries, "w_1"@, zeta as u64).unwrap() as int,
                crate::rounds::lookup(entries, "w_2"@, zeta as u64).unwrap() as int,
                crate::rounds::lookup(entries, "z"@, sp).unwrap() as int,
                crate::rounds::lookup(entries, "sigma_0"@, zeta as u64).unwrap() as int,
                crate::rounds::lookup(entries, "sigma_1"@, zeta as u64).unwrap() as int,
                crate::rounds::lookup(entries, "q_arith"@, zeta as u64).unwrap() as int,
                crate::rounds::lookup(entries, "t"@, zeta as u64).unwrap() as int,
                crate::rounds::lookup(entries, "r"@, zeta as u64).unwrap() as int,
                pi,
            ),
        )
    } else {
        None
    }
}

/// A proof whose evaluation set has the shape the prover's final step
/// produces — the ten openings, at the transcript-derived query point and
/// its shift — answers every opening `verify` asks for: verification of
/// an honestly produced proof never fails for a missing evaluation.
pub proof fn lemma_honest_proof_is_complete(vk: &VerifierKey, pi: Seq<u64>, proof: &Proof)
    requires
        proof.evals.entries@.len() == 10,
        proof.evals.entries@[0].1 == derived_zeta(
            padded(pi, vk.info.n as nat),
            concat_bytes(proof.first_comms@),
            concat_bytes(proof.second_comms@),
            concat_bytes(proof.third_comms@),
        ) as u64,
        proof.evals.entries@[4].1 == crate::field::fmul(
            crate::domain::domain_gen(vk.info.n as int),
            proof.evals.entries@[0].1 as int,
        ) as u64,
        crate::rounds::lookup(proof.evals.entries@, "w_0"@, proof.evals.entries@[0].1) is Some,
        crate::rounds::lookup(proof.evals.entries@, "w_1"@, proof.evals.entries@[0].1) is Some,
        crate::rounds::lookup(proof.evals.entries@, "w_2"@, proof.evals.entries@[0].1) is Some,
        crate::rounds::lookup(proof.evals.entries@, "w_3"@, proof.evals.entries@[0].1) is Some,
        crate::rounds::lookup(proof.evals.entries@, "z"@, proof.evals.entries@[4].1) is Some,
        crate::rounds::lookup(proof.evals.entries@, "q_arith"@, proof.evals.entries@[0].1) is Some,
        crate::rounds::lookup(proof.evals.entries@, "sigma_0"@, proof.evals.entries@[0].1) is Some,
        crate::rounds::lookup(proof.evals.entries@, "sigma_1"@, proof.evals.entries@[0].1) is Some,
        crate::rounds::lookup(proof.evals.entries@, "t"@, proof.evals.entries@[0].1) is Some,
        crate::rounds::lookup(proof.evals.entries@, "r"@, proof.evals.entries@[0].1) is Some,
    ensures
        verify_outcome(vk, pi, proof) is Some,
{
}

/// Checks at run time that every opened value in the set is reduced.
fn check_evals_reduced(evals: &Evaluations) -> (r: bool)
    ensures
        r == evals_wf(evals.entries@),
{
    let mut i: usize = 0;
    while i < evals.entries.len()
        invariant
            i <= evals.entries@.len(),
            forall|j: int| 0 <= j < i ==> is_felt((#[trigger] evals.entries@[j]).2),
        decreases evals.entries@.len() - i,
    {
        if evals.entries[i].2 >= crate::field::P {
            return false;
        }
        i = i + 1;
    }
    true
}

} // verus!
