//! The polynomial-commitment boundary, in the shape the protocol consumes
//! it: `setup` producing universal parameters, `trim` cutting them to a
//! supported degree, and `commit` turning a batch of labeled polynomials
//! into short commitments.
//!
//! The commitment here is a binding digest of the coefficient vector. The
//! round protocol is indifferent to the scheme behind this interface —
//! all it ever does with a commitment is absorb its bytes into the
//! Fiat-Shamir transcript; opening proofs are the scheme's own concern,
//! behind the same boundary.
use vstd::prelude::*;

use crate::poly::LabeledPolynomial;
use crate::transcript::{hash_of, ser_u64s};
use crate::Error;

verus! {

/// What a commitment to a coefficient vector is: the digest of its
/// serialization.
pub open spec fn commitment_spec(coeffs: Seq<u64>) -> Seq<u8> {
    hash_of(ser_u64s(coeffs))
}

/// Universal parameters: everything any circuit up to `max_degree` needs.
pub struct UniversalParams {
    pub max_degree: usize,
}

impl UniversalParams {
    /// The largest polynomial degree the parameters support.
    pub fn max_degree(&self) -> (r: usize)
        ensures
            r == self.max_degree,
    {
        self.max_degree
    }
}

/// The prover-side key trimmed to one circuit's degree.
pub struct CommitterKey {
    pub supported_degree: usize,
}

/// The verifier-side key trimmed to one circuit's degree.
pub struct SchemeVerifierKey {
    pub supported_degree: usize,
}

/// Generates universal parameters for polynomials up to `max_degree`.
pub fn setup(max_degree: usize) -> (r: UniversalParams)
    ensures
        r.max_degree == max_degree,
{
    UniversalParams { max_degree }
}

/// Cuts the universal parameters down to `degree`; refused beyond the
/// parameters' own bound.
pub fn trim(srs: &UniversalParams, degree: usize) -> (r: Result<
    (CommitterKey, SchemeVerifierKey),
    Error,
>)
    ensures
        r is Ok <==> degree <= srs.max_degree,
        r matches Ok(ks) ==> ks.0.supported_degree == degree && ks.1.supported_degree == degree,
        r is Err ==> r == Result::<(CommitterKey, SchemeVerifierKey), Error>::Err(
            Error::CircuitTooLarge,
        ),
{
    if degree <= srs.max_degree {
        Ok((CommitterKey { supported_degree: degree }, SchemeVerifierKey { supported_degree: degree }))
    } else {
        Err(Error::CircuitTooLarge)
    }
}

/// Commits to every polynomial of the batch, in order. Refused as soon as
/// one polynomial has more coefficients than the trimmed degree allows.
pub fn commit(ck: &CommitterKey, polys: &Vec<&LabeledPolynomial>) -> (r: Result<
    Vec<Vec<u8>>,
    Error,
>)
    requires
        ck.supported_degree < usize::MAX,
    ensures
        r is Ok <==> (forall|i: int|
            0 <= i < polys@.len() ==> (#[trigger] polys@[i].poly_view()).len()
                <= ck.supported_degree + 1),
        r matches Ok(cs) ==> cs@.len() == polys@.len() && (forall|i: int|
            0 <= i < polys@.len() ==> (#[trigger] cs@[i]@) == commitment_spec(
                polys@[i].poly_view(),
            )),
        r is Err ==> r == Result::<Vec<Vec<u8>>, Error>::Err(Error::DegreeTooLarge),
{
    let mut out: Vec<Vec<u8>> = Vec::new();
    let mut i: usize = 0;
    while i < polys.len()
        invariant
            ck.supported_degree < usize::MAX,
            i <= polys@.len(),
            out@.len() == i,
            forall|j: int|
                0 <= j < i ==> (#[trigger] polys@[j].poly_view()).len() <= ck.supported_degree + 1,
            forall|j: int|
                0 <= j < i ==> (#[trigger] out@[j]@) == commitment_spec(polys@[j].poly_view()),
        decreases polys@.len() - i,
    {
        let p: &LabeledPolynomial = polys[i];
        if p.polynomial().coeffs.len() > ck.supported_degree + 1 {
            return Err(Error::DegreeTooLarge);
        }
        let bytes: Vec<u8> = crate::transcript::ser_u64_vec(&p.polynomial().coeffs);
        out.push(crate::transcript::blake2s_hash(&bytes));
        i = i + 1;
    }
    Ok(out)
}

/// Concatenates a round's commitments for transcript absorption.
pub open spec fn concat_bytes(s: Seq<Vec<u8>>) -> Seq<u8>
    decreases s.len(),
{
    if s.len() == 0 {
        Seq::empty()
    } else {
        concat_bytes(s.drop_last()) + s.last()@
    }
}

/// A four-element batch flattens to the four byte strings in order.
pub proof fn lemma_concat_four(s: Seq<Vec<u8>>)
    requires
        s.len() == 4,
    ensures
        concat_bytes(s) == s[0]@ + s[1]@ + s[2]@ + s[3]@,
{
    let s1 = seq![s[0]];
    let s2 = seq![s[0], s[1]];
    let s3 = seq![s[0], s[1], s[2]];
    assert(s1.drop_last() =~= Seq::<Vec<u8>>::empty());
    assert(concat_bytes(s1.drop_last()) + s1.last()@ =~= s[0]@);
    assert(concat_bytes(s1) =~= s[0]@);
    assert(s2.drop_last() =~= s1);
    assert(concat_bytes(s2) =~= s[0]@ + s[1]@);
    assert(s3.drop_last() =~= s2);
    assert(concat_bytes(s3) =~= s[0]@ + s[1]@ + s[2]@);
    assert(s.drop_last() =~= s3);
    assert(concat_bytes(s) =~= s[0]@ + s[1]@ + s[2]@ + s[3]@);
}

/// Flattens a round's commitments into one byte string, in order.
pub fn flatten_commitments(cs: &Vec<Vec<u8>>) -> (r: Vec<u8>)
    ensures
        r@ == concat_bytes(cs@),
{
    let mut out: Vec<u8> = Vec::new();
    let mut i: usize = 0;
    while i < cs.len()
        invariant
            i <= cs@.len(),
            out@ == concat_bytes(cs@.subrange(0, i as int)),
        decreases cs@.len() - i,
    {
        let c: &Vec<u8> = &cs[i];
        let mut j: usize = 0;
        while j < c.len()
            invariant
                j <= c@.len(),
                i < cs@.len(),
                c == &cs@[i as int],
                out@ == concat_bytes(cs@.subrange(0, i as int)) + c@.subrange(0, j as int),
            decreases c@.len() - j,
        {
            out.push(c[j]);
            proof {
                assert(out@ =~= concat_bytes(cs@.subrange(0, i as int)) + c@.subrange(0, j + 1));
            }
            j = j + 1;
        }
        proof {
            assert(cs@.subrange(0, i + 1).drop_last() =~= cs@.subrange(0, i as int));
            assert(cs@.subrange(0, i + 1).last() == cs@[i as int]);
            assert(c@.subrange(0, c@.len() as int) =~= c@);
            assert(out@ =~= concat_bytes(cs@.subrange(0, i + 1)));
        }
        i = i + 1;
    }
    proof {
        assert(cs@.subrange(0, cs@.len() as int) =~= cs@);
    }
    out
}

} // verus!
