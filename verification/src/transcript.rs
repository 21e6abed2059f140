//! The Fiat-Shamir transcript: a deterministic challenge generator seeded
//! by a domain-separation byte string and the serialized public input,
//! absorbing each round's commitments before the next challenge is drawn.
//!
//! The state is a hash chain. Determinism is the point: for a fixed seed
//! and a fixed absorb sequence, every derived challenge is a fixed function
//! of those bytes, which is what lets prover and verifier agree without
//! interaction.
use vstd::prelude::*;

use crate::field::{is_felt, P};

verus! {

/// The digest of a byte string, as blake2s computes it.
pub uninterp spec fn hash_of(data: Seq<u8>) -> Seq<u8>;

/// Relies on blake2's `Blake2s256`: the digest is a pure function of the
/// input bytes alone and is 32 bytes long.
#[verifier::external_body]
pub(crate) fn blake2s_hash(data: &Vec<u8>) -> (r: Vec<u8>)
    ensures
        r@ == hash_of(data@),
        r@.len() == 32,
{
    <blake2::Blake2s256 as blake2::Digest>::digest(data.as_slice()).to_vec()
}

/// The little-endian value of the first four bytes of `b`.
pub open spec fn le4_val(b: Seq<u8>) -> int {
    b[0] + 256 * b[1] + 65536 * b[2] + 16777216 * b[3]
}

/// The little-endian bytes of a machine word, low byte first.
pub open spec fn u64_le_spec(x: u64) -> Seq<u8> {
    seq![
        (x as int % 256) as u8,
        (x as int / 256 % 256) as u8,
        (x as int / 65536 % 256) as u8,
        (x as int / 16777216 % 256) as u8,
        (x as int / 4294967296 % 256) as u8,
        (x as int / 1099511627776 % 256) as u8,
        (x as int / 281474976710656 % 256) as u8,
        (x as int / 72057594037927936 % 256) as u8,
    ]
}

/// The concatenated little-endian serialization of a word sequence.
pub open spec fn ser_u64s(s: Seq<u64>) -> Seq<u8>
    decreases s.len(),
{
    if s.len() == 0 {
        Seq::empty()
    } else {
        ser_u64s(s.drop_last()) + u64_le_spec(s.last())
    }
}

/// The transcript state after a seed.
pub open spec fn seeded_state(seed: Seq<u8>) -> Seq<u8> {
    hash_of(seed)
}

/// The transcript state after absorbing `data` into `state`.
pub open spec fn absorbed_state(state: Seq<u8>, data: Seq<u8>) -> Seq<u8> {
    hash_of(state + data)
}

/// The field element drawn from `state`.
pub open spec fn squeezed_value(state: Seq<u8>) -> int {
    le4_val(hash_of(state.push(0u8))) % (P as int)
}

/// The transcript state after a draw.
pub open spec fn squeezed_state(state: Seq<u8>) -> Seq<u8> {
    hash_of(state.push(1u8))
}

/// Copies a byte vector.
pub fn clone_u8_vec(v: &Vec<u8>) -> (r: Vec<u8>)
    ensures
        r@ == v@,
{
    let mut out: Vec<u8> = Vec::new();
    let mut i: usize = 0;
    while i < v.len()
        invariant
            i <= v@.len(),
            out@ == v@.subrange(0, i as int),
        decreases v@.len() - i,
    {
        out.push(v[i]);
        i = i + 1;
    }
    proof {
        assert(out@ =~= v@);
    }
    out
}

/// Serializes a machine word into its eight little-endian bytes.
pub fn u64_le_bytes(x: u64) -> (r: Vec<u8>)
    ensures
        r@ == u64_le_spec(x),
{
    let mut out: Vec<u8> = Vec::new();
    out.push((x % 256) as u8);
    out.push((x / 256 % 256) as u8);
    out.push((x / 65536 % 256) as u8);
    out.push((x / 16777216 % 256) as u8);
    out.push((x / 4294967296 % 256) as u8);
    out.push((x / 1099511627776 % 256) as u8);
    out.push((x / 281474976710656 % 256) as u8);
    out.push((x / 72057594037927936 % 256) as u8);
    proof {
        assert(out@ =~= u64_le_spec(x));
    }
    out
}

/// Serializes a word vector, low byte of the first word first.
pub fn ser_u64_vec(s: &Vec<u64>) -> (r: Vec<u8>)
    ensures
        r@ == ser_u64s(s@),
{
    let mut out: Vec<u8> = Vec::new();
    let mut i: usize = 0;
    while i < s.len()
        invariant
            i <= s@.len(),
            out@ == ser_u64s(s@.subrange(0, i as int)),
        decreases s@.len() - i,
    {
        let mut bytes: Vec<u8> = u64_le_bytes(s[i]);
        let mut j: usize = 0;
        while j < bytes.len()
            invariant
                j <= bytes@.len(),
                bytes@ == u64_le_spec(s@[i as int]),
                i < s@.len(),
                out@ == ser_u64s(s@.subrange(0, i as int)) + bytes@.subrange(0, j as int),
            decreases bytes@.len() - j,
        {
            out.push(bytes[j]);
            proof {
                assert(out@ =~= ser_u64s(s@.subrange(0, i as int)) + bytes@.subrange(
                    0,
                    j + 1,
                ));
            }
            j = j + 1;
        }
        proof {
            assert(s@.subrange(0, i + 1).drop_last() =~= s@.subrange(0, i as int));
            assert(s@.subrange(0, i + 1).last() == s@[i as int]);
            assert(bytes@.subrange(0, 8) =~= bytes@);
            assert(out@ =~= ser_u64s(s@.subrange(0, i + 1)));
        }
        i = i + 1;
    }
    proof {
        assert(s@.subrange(0, s@.len() as int) =~= s@);
    }
    out
}

/// The deterministic challenge generator.
pub struct FiatShamirRng {
    state: Vec<u8>,
}

impl FiatShamirRng {
    /// The current chain state.
    pub closed spec fn view(&self) -> Seq<u8> {
        self.state@
    }

    /// Keys the generator with a seed: protocol name plus public input.
    pub fn from_seed(seed: &Vec<u8>) -> (r: FiatShamirRng)
        ensures
            r.view() == seeded_state(seed@),
    {
        FiatShamirRng { state: blake2s_hash(seed) }
    }

    /// Mixes round data (serialized commitments) into the state.
    pub fn absorb(&mut self, data: &Vec<u8>)
        ensures
            final(self).view() == absorbed_state(old(self).view(), data@),
    {
        let mut buf: Vec<u8> = clone_u8_vec(&self.state);
        let mut i: usize = 0;
        while i < data.len()
            invariant
                i <= data@.len(),
                buf@ == old(self).view() + data@.subrange(0, i as int),
                self.view() == old(self).view(),
            decreases data@.len() - i,
        {
            buf.push(data[i]);
            proof {
                assert(buf@ =~= old(self).view() + data@.subrange(0, i + 1));
            }
            i = i + 1;
        }
        proof {
            assert(data@.subrange(0, data@.len() as int) =~= data@);
        }
        self.state = blake2s_hash(&buf);
    }

    /// Draws one field element and advances the state; the draw and the
    /// new state are fixed functions of the old state.
    pub fn squeeze_field_element(&mut self) -> (r: u64)
        ensures
            is_felt(r),
            r == squeezed_value(old(self).view()),
            final(self).view() == squeezed_state(old(self).view()),
    {
        let mut d0: Vec<u8> = clone_u8_vec(&self.state);
        d0.push(0);
        let h: Vec<u8> = blake2s_hash(&d0);
        let v: u64 = (h[0] as u64) + 256 * (h[1] as u64) + 65536 * (h[2] as u64) + 16777216 * (
        h[3] as u64);
        let r: u64 = crate::field::fp_reduce(v);
        let mut d1: Vec<u8> = clone_u8_vec(&self.state);
        d1.push(1);
        proof {
            assert(d0@ =~= old(self).view().push(0u8));
            assert(d1@ =~= old(self).view().push(1u8));
        }
        self.state = blake2s_hash(&d1);
        r
    }
}

} // verus!
