//! A PLONK-style non-interactive argument: an arithmetic circuit, given
//! as gate selectors and wire-copy constraints, is preprocessed into
//! committed index polynomials; a three-round algebraic protocol between
//! prover and verifier is then collapsed into one transcript by a
//! Fiat-Shamir transform, and the verifier's decision is a single field
//! equality over the proof's claimed openings.
//!
//! The crate root holds the error type shared by every stage and a small
//! integer-logarithm helper used to size multi-scalar-multiplication
//! windows; the protocol itself lives in the modules: `field`, `poly` and
//! `domain` for the algebra, `composer` for the circuit table, `indexer`,
//! `prover`, `rounds` and `transcript` for the protocol, `commit` for the
//! commitment boundary, and `plonk` for the public API.
use vstd::prelude::*;
use vstd::arithmetic::power2::{pow2, lemma_pow2_unfold, lemma_pow2_strictly_increases, lemma2_to64};

pub mod commit;
pub mod composer;
pub mod domain;
pub mod field;
pub mod indexer;
pub mod plonk;
pub mod poly;
pub mod prover;
pub mod rounds;
pub mod transcript;

verus! {

/// Everything that can go wrong in this protocol. All failures are
/// structural (bad input or bad call order), none transient: no operation
/// is retried, and a failed round invalidates the whole proof session.
#[derive(Debug, PartialEq, Eq, Structural, Clone, Copy)]
pub enum Error {
    /// The structured reference string is smaller than the index needs.
    CircuitTooLarge,
    /// A witness value required during constraint synthesis was absent
    /// or malformed; never occurs on the verifier path.
    AssignmentMissing,
    /// An opening the verifier needs was absent from the proof's
    /// evaluation set; the proof is malformed or tampered with.
    MissingEvaluation,
    /// A verifier round was entered out of order or twice.
    OutOfOrder,
    /// The commitment scheme refused a polynomial over its trimmed degree.
    DegreeTooLarge,
    /// A multiplicative-inverse check failed; on a prime modulus this
    /// cannot happen for a nonzero element, but the arithmetic model does
    /// not assume it, so it is surfaced rather than trusted.
    ArithmeticFailure,
}

/// Returns the floor of the base-two logarithm of `a`, i.e. the position of
/// the highest set bit; 0 when `a` is 0.
pub open spec fn log2_spec(a: nat) -> nat
    decreases a,
{
    if a <= 1 {
        0
    } else {
        1 + log2_spec(a / 2)
    }
}

/// Floor of the base-two logarithm: the position of the highest set bit.
pub fn log2(a: usize) -> (r: usize)
    ensures
        r == log2_spec(a as nat),
        r < 64,
{
    let mut v: usize = a;
    let mut r: usize = 0;
    proof {
        lemma2_to64();
    }
    while v > 1
        invariant
            log2_spec(a as nat) == r + log2_spec(v as nat),
            v >= 1 ==> pow2(r as nat) * v <= a,
            r < 64,
        decreases v,
    {
        proof {
            lemma_pow2_unfold((r + 1) as nat);
            assert(pow2(((r + 1) as nat)) * ((v / 2) as nat) <= a as nat) by (nonlinear_arith)
                requires
                    pow2(((r + 1) as nat)) == 2 * pow2(r as nat),
                    pow2(r as nat) * (v as nat) <= a as nat,
                    v as nat >= 2,
            ;
            // v >= 2 here, so pow2(r + 1) <= a < pow2(64), hence r + 1 < 64.
            assert(pow2(((r + 1) as nat)) <= a as nat) by (nonlinear_arith)
                requires
                    pow2(((r + 1) as nat)) * ((v / 2) as nat) <= a as nat,
                    (v / 2) as nat >= 1,
            ;
            if r + 1 >= 64 {
                lemma_pow2_strictly_increases(63, (r + 1) as nat);
                lemma2_to64();
                assert(false);
            }
        }
        v = v / 2;
        r = r + 1;
    }
    r
}

/// An integer approximation of the natural logarithm of `a`,
/// computed as `log2(a) * ln(2)` with `ln(2)` taken as `69/100`.
pub fn ln_without_floats(a: usize) -> (r: usize)
    ensures
        r == log2_spec(a as nat) * 69 / 100,
{
    log2(a) * 69 / 100
}

} // verus!
