use plonk::composer::Composer;
use plonk::plonk::{Plonk, Proof, ProverKey, VerifierKey};
use plonk::rounds::Evaluations;
use plonk::Error;

/// A circuit of `m` identical gates each enforcing `x * (y + 2) = z`:
/// with `x` on wire 1 and `y` on wire 2 each row reads
/// `2 * x + x * y - z = 0`, so `q_1 = 2`, `q_m = 1` and the public input
/// carries `-z`. The copy constraints tie all the `x` cells into one
/// cycle and all the `y` cells into another.
fn mini_circuit(m: usize, x: u64, y: u64, z: u64) -> Composer {
    let minus_z = (plonk::field::P - z % plonk::field::P) % plonk::field::P;
    let mut perm: Vec<usize> = (0..3 * m).collect();
    for i in 0..m {
        perm[m + i] = m + (i + 1) % m;
        perm[2 * m + i] = 2 * m + (i + 1) % m;
    }
    Composer {
        q_0: vec![0; m],
        q_1: vec![2; m],
        q_2: vec![0; m],
        q_3: vec![0; m],
        q_m: vec![1; m],
        q_c: vec![0; m],
        q_arith: vec![1; m],
        pi: vec![minus_z; m],
        w_0: vec![0; m],
        w_1: vec![x; m],
        w_2: vec![y; m],
        w_3: vec![0; m],
        perm,
    }
}

const KS: [u64; 4] = [1, 7, 13, 17];

fn keygen_prove(cs: &Composer, srs_degree: usize) -> (ProverKey, VerifierKey, Proof) {
    assert!(cs.check_valid());
    let srs = Plonk::setup(srs_degree).unwrap();
    let (pk, vk) = Plonk::keygen(&srs, cs, KS).unwrap();
    let proof = Plonk::prove(&pk, cs).unwrap();
    (pk, vk, proof)
}

#[test]
fn end_to_end_satisfying_witness_accepts() {
    // 100 gates pad to an index of size 128; the SRS must cover it.
    let cs = mini_circuit(100, 2, 3, 10);
    let (pk, vk, proof) = keygen_prove(&cs, 128);
    assert_eq!(pk.keys.info.n, 128);
    assert_eq!(vk.info.n, 128);
    assert_eq!(Plonk::verify(&vk, &cs.pi, &proof), Ok(true));
}

#[test]
fn end_to_end_unsatisfying_witness_rejects() {
    // 2 * (3 + 2) = 10, so z = 11 cannot be satisfied.
    let cs = mini_circuit(100, 2, 3, 11);
    let (_pk, vk, proof) = keygen_prove(&cs, 128);
    assert_eq!(Plonk::verify(&vk, &cs.pi, &proof), Ok(false));
}

#[test]
fn small_constant_gate_circuit_accepts() {
    // three gates enforcing w_0 - 5 = 0, index padded from 3 to 4
    let m = 3;
    let cs = Composer {
        q_0: vec![1; m],
        q_1: vec![0; m],
        q_2: vec![0; m],
        q_3: vec![0; m],
        q_m: vec![0; m],
        q_c: vec![plonk::field::P - 5; m],
        q_arith: vec![1; m],
        pi: vec![0; m],
        w_0: vec![5; m],
        w_1: vec![0; m],
        w_2: vec![0; m],
        w_3: vec![0; m],
        perm: (0..3 * m).collect(),
    };
    let (pk, vk, proof) = keygen_prove(&cs, 64);
    assert_eq!(pk.keys.info.n, 4);
    assert_eq!(Plonk::verify(&vk, &cs.pi, &proof), Ok(true));
}

#[test]
fn broken_copy_constraint_rejects() {
    // wire the x cells to the y cells: the witness (x != y) then breaks
    // the permutation argument even though every gate is satisfied
    let m = 4;
    let mut cs = mini_circuit(m, 2, 3, 10);
    cs.perm = (0..3 * m).collect();
    cs.perm[m] = 2 * m; // claim w_1[0] is copied from w_2[0]
    cs.perm[2 * m] = m;
    let (_pk, vk, proof) = keygen_prove(&cs, 64);
    assert_eq!(Plonk::verify(&vk, &cs.pi, &proof), Ok(false));
}

#[test]
fn proofs_are_byte_identical_across_runs() {
    // two independent runs over identical key, witness and protocol
    // name must agree bit for bit: challenge derivation and every round
    // are fixed functions of the data
    let cs = mini_circuit(16, 2, 3, 10);
    assert!(cs.check_valid());
    let srs = Plonk::setup(32).unwrap();
    let (pk, vk) = Plonk::keygen(&srs, &cs, KS).unwrap();
    let p1 = Plonk::prove(&pk, &cs).unwrap();
    let p2 = Plonk::prove(&pk, &cs).unwrap();
    assert_eq!(p1.first_comms, p2.first_comms);
    assert_eq!(p1.second_comms, p2.second_comms);
    assert_eq!(p1.third_comms, p2.third_comms);
    assert_eq!(p1.evals.entries, p2.evals.entries);
    // and a fresh keygen over the same circuit commits identically
    let (_pk2, vk2) = Plonk::keygen(&srs, &cs, KS).unwrap();
    assert_eq!(vk.comms, vk2.comms);
}

#[test]
fn tampered_wire_commitment_rejects() {
    let cs = mini_circuit(16, 2, 3, 10);
    let (_pk, vk, mut proof) = keygen_prove(&cs, 32);
    proof.first_comms[0][0] ^= 1;
    // a flipped commitment byte shifts every later challenge, so either
    // the identity fails at the new point or the openings are no longer
    // the ones the verifier asks for; both are rejections
    let r = Plonk::verify(&vk, &cs.pi, &proof);
    assert!(matches!(r, Ok(false) | Err(Error::MissingEvaluation)));
}

#[test]
fn tampered_accumulator_commitment_rejects() {
    let cs = mini_circuit(16, 2, 3, 10);
    let (_pk, vk, mut proof) = keygen_prove(&cs, 32);
    proof.second_comms[0][7] ^= 0x80;
    // a flipped commitment byte shifts every later challenge, so either
    // the identity fails at the new point or the openings are no longer
    // the ones the verifier asks for; both are rejections
    let r = Plonk::verify(&vk, &cs.pi, &proof);
    assert!(matches!(r, Ok(false) | Err(Error::MissingEvaluation)));
}

#[test]
fn tampered_quotient_commitment_rejects() {
    let cs = mini_circuit(16, 2, 3, 10);
    let (_pk, vk, mut proof) = keygen_prove(&cs, 32);
    proof.third_comms[3][31] ^= 1;
    // a flipped commitment byte shifts every later challenge, so either
    // the identity fails at the new point or the openings are no longer
    // the ones the verifier asks for; both are rejections
    let r = Plonk::verify(&vk, &cs.pi, &proof);
    assert!(matches!(r, Ok(false) | Err(Error::MissingEvaluation)));
}

#[test]
fn tampered_opening_rejects() {
    let cs = mini_circuit(16, 2, 3, 10);
    let (_pk, vk, mut proof) = keygen_prove(&cs, 32);
    // shift the claimed quotient opening by one
    for e in proof.evals.entries.iter_mut() {
        if e.0 == "t" {
            e.2 = (e.2 + 1) % plonk::field::P;
        }
    }
    assert_eq!(Plonk::verify(&vk, &cs.pi, &proof), Ok(false));
}

#[test]
fn unreduced_opening_rejects() {
    let cs = mini_circuit(16, 2, 3, 10);
    let (_pk, vk, mut proof) = keygen_prove(&cs, 32);
    proof.evals.entries[0].2 = plonk::field::P; // not a reduced residue
    assert_eq!(Plonk::verify(&vk, &cs.pi, &proof), Ok(false));
}

#[test]
fn missing_evaluation_is_reported() {
    let cs = mini_circuit(16, 2, 3, 10);
    let (_pk, vk, mut proof) = keygen_prove(&cs, 32);
    proof.evals = Evaluations::new();
    assert_eq!(Plonk::verify(&vk, &cs.pi, &proof), Err(Error::MissingEvaluation));
}

#[test]
fn srs_too_small_is_circuit_too_large() {
    let cs = mini_circuit(100, 2, 3, 10);
    assert!(cs.check_valid());
    let srs = Plonk::setup(64).unwrap(); // the index needs degree 128
    assert_eq!(Plonk::keygen(&srs, &cs, KS).err().unwrap(), Error::CircuitTooLarge);
}

#[test]
fn empty_circuit_is_assignment_missing() {
    let cs = Composer {
        q_0: vec![],
        q_1: vec![],
        q_2: vec![],
        q_3: vec![],
        q_m: vec![],
        q_c: vec![],
        q_arith: vec![],
        pi: vec![],
        w_0: vec![],
        w_1: vec![],
        w_2: vec![],
        w_3: vec![],
        perm: vec![],
    };
    assert!(cs.check_valid());
    let srs = Plonk::setup(8).unwrap();
    assert_eq!(Plonk::keygen(&srs, &cs, KS).err().unwrap(), Error::AssignmentMissing);
}
