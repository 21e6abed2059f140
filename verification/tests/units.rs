use plonk::composer::Composer;
use plonk::domain::Domain;
use plonk::field;
use plonk::indexer::ArithmeticKey;
use plonk::ln_without_floats;
use plonk::log2;
use plonk::poly::{DensePoly, LabeledPolynomial};
use plonk::rounds::{AHPForPLONK, Evaluations};
use plonk::transcript::FiatShamirRng;
use plonk::Error;

#[test]
fn field_ops_exact_values() {
    assert_eq!(field::fp_add(3, 4), 7);
    assert_eq!(field::fp_add(field::P - 1, 1), 0);
    assert_eq!(field::fp_sub(3, 5), field::P - 2);
    assert_eq!(field::fp_neg(1), field::P - 1);
    assert_eq!(field::fp_mul(1000003, 1000033), 1000003u64 * 1000033 % field::P);
    assert_eq!(field::fp_pow(3, 4), 81);
    assert_eq!(field::fp_pow(2, 0), 1);
    assert_eq!(field::fp_reduce(field::P + 5), 5);
}

#[test]
fn field_inverse_multiplies_to_one() {
    assert_eq!(field::fp_inv(0), None);
    for a in [1u64, 2, 7, 31, field::P - 1, 123456789] {
        let inv = field::fp_inv(a).unwrap();
        assert_eq!(field::fp_mul(a, inv), 1);
    }
}

#[test]
fn two_adic_root_has_claimed_order() {
    assert_eq!(field::fp_pow(field::TWO_ADIC_ROOT, 1u64 << 27), 1);
    assert_ne!(field::fp_pow(field::TWO_ADIC_ROOT, 1u64 << 26), 1);
}

#[test]
fn log2_and_ln_without_floats_exact() {
    assert_eq!(log2(1), 0);
    assert_eq!(log2(2), 1);
    assert_eq!(log2(100), 6);
    assert_eq!(ln_without_floats(100), 4);
    assert_eq!(ln_without_floats(1), 0);
}

#[test]
fn labeled_polynomial_round_trip() {
    let p = DensePoly::from_coeffs(vec![1, 2, 3]);
    let lp = LabeledPolynomial::new_owned("w_0".to_string(), p);
    assert_eq!(lp.label().as_str(), "w_0");
    assert_eq!(lp.polynomial().coeffs, vec![1, 2, 3]);
    // 1 + 2*2 + 3*4 = 17
    assert_eq!(lp.evaluate(&2), 17);
    assert_eq!(lp.evaluate(&0), 1);
}

#[test]
fn domain_generator_has_order_n() {
    for n in [2usize, 4, 8, 128] {
        let d = Domain::new(n).unwrap();
        assert_eq!(field::fp_pow(d.g, n as u64), 1);
        if n > 1 {
            assert_ne!(field::fp_pow(d.g, n as u64 / 2), 1);
        }
        assert_eq!(field::fp_mul(d.g, d.g_inv), 1);
    }
    assert!(Domain::new(0).is_none());
    assert!(Domain::new(3).is_none());
}

#[test]
fn interpolation_round_trip_on_all_domain_sizes() {
    // Constructing from a coefficient vector and re-evaluating on the
    // domain must invert interpolation, for every tested power of two.
    for n in [2usize, 4, 8, 16] {
        let d = Domain::new(n).unwrap();
        let coeffs: Vec<u64> = (1..=n as u64).collect();
        let poly = DensePoly::from_coeffs(coeffs.clone());
        let points = d.elements();
        let evals: Vec<u64> = points.iter().map(|x| poly.evaluate(x)).collect();
        let back = d.interpolate(&evals);
        assert_eq!(back.coeffs, coeffs);
        // and the interpolant of arbitrary evaluations matches them
        let evals2: Vec<u64> = (0..n as u64).map(|i| (i * i + 5) % field::P).collect();
        let poly2 = d.interpolate(&evals2);
        for (i, x) in points.iter().enumerate() {
            assert_eq!(poly2.evaluate(x), evals2[i]);
        }
    }
}

#[test]
fn first_lagrange_eval_matches_definition() {
    let d = Domain::new(8).unwrap();
    // L1 is 1 at the first domain point and 0 at the others.
    let points = d.elements();
    assert_eq!(d.first_lagrange_eval(points[0]).unwrap(), 1);
    for x in points.iter().skip(1) {
        assert_eq!(d.first_lagrange_eval(*x).unwrap(), 0);
    }
    // off the domain it agrees with (x^n - 1) / (n (x - 1))
    let zeta = 12345u64;
    let num = field::fp_sub(field::fp_pow(zeta, 8), 1);
    let den = field::fp_mul(8, field::fp_sub(zeta, 1));
    let expect = field::fp_mul(num, field::fp_inv(den).unwrap());
    assert_eq!(d.first_lagrange_eval(zeta).unwrap(), expect);
}

#[test]
fn transcript_is_deterministic() {
    let seed = vec![1u8, 2, 3];
    let mut a = FiatShamirRng::from_seed(&seed);
    let mut b = FiatShamirRng::from_seed(&seed);
    a.absorb(&vec![9, 9, 9]);
    b.absorb(&vec![9, 9, 9]);
    let ca = a.squeeze_field_element();
    let cb = b.squeeze_field_element();
    assert_eq!(ca, cb);
    assert_eq!(a.squeeze_field_element(), b.squeeze_field_element());
    // a different absorption diverges
    let mut c = FiatShamirRng::from_seed(&seed);
    c.absorb(&vec![9, 9, 8]);
    assert_ne!(c.squeeze_field_element(), ca);
}

#[test]
fn test_state_machine_ordering() {
    // Entering the second round before the first must reject, not
    // silently default the permutation challenges.
    let info = plonk::indexer::IndexInfo { n: 8, n_pi: 4 };
    let vs = AHPForPLONK::verifier_init(&info).unwrap();
    assert_eq!(
        AHPForPLONK::verifier_second_round(vs, 5).err().unwrap(),
        Error::OutOfOrder
    );
    let vs = AHPForPLONK::verifier_init(&info).unwrap();
    assert!(matches!(AHPForPLONK::verifier_third_round(vs, 5), Err(Error::OutOfOrder)));
    // the proper order goes through, each round exactly once
    let vs = AHPForPLONK::verifier_init(&info).unwrap();
    let (vs, msg1) = AHPForPLONK::verifier_first_round(vs, 11, 22).unwrap();
    assert_eq!((msg1.beta, msg1.gamma), (11, 22));
    let (vs2, _msg1b) = match AHPForPLONK::verifier_first_round(vs, 1, 2) {
        Err(e) => {
            assert_eq!(e, Error::OutOfOrder);
            // recover the state by rebuilding the successful prefix
            let vs = AHPForPLONK::verifier_init(&info).unwrap();
            AHPForPLONK::verifier_first_round(vs, 11, 22).unwrap()
        }
        Ok(_) => panic!("running the first round twice must reject"),
    };
    let (vs3, msg2) = AHPForPLONK::verifier_second_round(vs2, 33).unwrap();
    assert_eq!(msg2.alpha, 33);
    let (vs4, msg3) = AHPForPLONK::verifier_third_round(vs3, 44).unwrap();
    assert_eq!(msg3.zeta, 44);
    assert_eq!(vs4.beta, Some(11));
    assert_eq!(vs4.gamma, Some(22));
    assert_eq!(vs4.alpha, Some(33));
    assert_eq!(vs4.zeta, Some(44));
}

#[test]
fn quotient_zero_on_disabled_gates() {
    // Wherever q_arith is zero the arithmetic quotient term is exactly
    // zero, whatever the wire values.
    for (w0, w1, w2, w3) in [(1u64, 2u64, 3u64, 4u64), (99, 0, 123456, 7), (5, 5, 5, 5)] {
        let r = ArithmeticKey::evaluate(w0, w1, w2, w3, 9, 8, 7, 6, 5, 4, 0, 3);
        assert_eq!(r, 0);
    }
    // and with the switch on, it is the constraint value times the switch:
    // (1*2 + 2*3 + 0 + 0 + 1*3*5 + 7 + 11) * 2 = (2+6+15+7+11)*2 = 82
    let r = ArithmeticKey::evaluate(2, 3, 5, 1, 1, 2, 0, 0, 1, 7, 2, 11);
    assert_eq!(r, 82);
}

#[test]
fn linear_combination_terms() {
    let lc = ArithmeticKey::construct_linear_combination((2, 3, 4, 5), 10);
    assert_eq!(lc.label, "arithmetic");
    let want: Vec<(u64, &str)> = vec![
        (20, "q_0"),
        (30, "q_1"),
        (40, "q_2"),
        (50, "q_3"),
        (120, "q_m"),
        (10, "q_c"),
    ];
    assert_eq!(lc.terms.len(), want.len());
    for (term, expect) in lc.terms.iter().zip(want.iter()) {
        assert_eq!(term.0, expect.0);
        assert_eq!(term.1, expect.1);
    }
}

#[test]
fn evaluations_lookup_by_label_and_point() {
    let mut e = Evaluations::new();
    e.insert("w_0".to_string(), 5, 42);
    e.insert("w_0".to_string(), 6, 43);
    e.insert("t".to_string(), 5, 44);
    assert_eq!(e.get(&"w_0".to_string(), 5), Some(42));
    assert_eq!(e.get(&"w_0".to_string(), 6), Some(43));
    assert_eq!(e.get(&"t".to_string(), 5), Some(44));
    assert_eq!(e.get(&"t".to_string(), 6), None);
    assert_eq!(e.get(&"r".to_string(), 5), None);
}

#[test]
fn commitments_are_binding_digests() {
    let ck = plonk::commit::CommitterKey { supported_degree: 8 };
    let p1 = LabeledPolynomial::new_owned("a".to_string(), DensePoly::from_coeffs(vec![1, 2, 3]));
    let p2 = LabeledPolynomial::new_owned("b".to_string(), DensePoly::from_coeffs(vec![1, 2, 3]));
    let p3 = LabeledPolynomial::new_owned("c".to_string(), DensePoly::from_coeffs(vec![1, 2, 4]));
    let batch1 = vec![&p1, &p2, &p3];
    let comms = plonk::commit::commit(&ck, &batch1).unwrap();
    assert_eq!(comms.len(), 3);
    assert_eq!(comms[0].len(), 32);
    // same coefficients, same commitment; different coefficients differ
    assert_eq!(comms[0], comms[1]);
    assert_ne!(comms[0], comms[2]);
    // a polynomial beyond the trimmed degree is refused
    let ck_small = plonk::commit::CommitterKey { supported_degree: 1 };
    let big = LabeledPolynomial::new_owned(
        "d".to_string(),
        DensePoly::from_coeffs(vec![1, 2, 3, 4, 5]),
    );
    let batch2 = vec![&big];
    assert_eq!(plonk::commit::commit(&ck_small, &batch2), Err(Error::DegreeTooLarge));
}

#[test]
fn composer_check_valid_catches_bad_tables() {
    let good = Composer {
        q_0: vec![0, 0],
        q_1: vec![1, 1],
        q_2: vec![0, 0],
        q_3: vec![0, 0],
        q_m: vec![0, 0],
        q_c: vec![0, 0],
        q_arith: vec![1, 1],
        pi: vec![0, 0],
        w_0: vec![0, 0],
        w_1: vec![0, 0],
        w_2: vec![0, 0],
        w_3: vec![0, 0],
        perm: (0..6).collect(),
    };
    assert!(good.check_valid());
    let mut short = Composer { q_1: vec![1], ..good };
    assert!(!short.check_valid());
    short.q_1 = vec![1, plonk::field::P];
    assert!(!short.check_valid());
}

#[test]
fn u64_serialization_is_little_endian() {
    let bytes = plonk::transcript::u64_le_bytes(0x0102030405060708);
    assert_eq!(bytes, vec![8, 7, 6, 5, 4, 3, 2, 1]);
    let all = plonk::transcript::ser_u64_vec(&vec![1, 256]);
    assert_eq!(all.len(), 16);
    assert_eq!(all[0], 1);
    assert_eq!(all[9], 1);
}

#[test]
fn query_set_lists_every_required_opening() {
    let info = plonk::indexer::IndexInfo { n: 8, n_pi: 4 };
    let vs = AHPForPLONK::verifier_init(&info).unwrap();
    assert_eq!(
        AHPForPLONK::verifier_query_set(&vs).err().unwrap(),
        Error::OutOfOrder
    );
    let (vs, _) = AHPForPLONK::verifier_first_round(vs, 1, 2).unwrap();
    let (vs, _) = AHPForPLONK::verifier_second_round(vs, 3).unwrap();
    let (vs, _) = AHPForPLONK::verifier_third_round(vs, 1000).unwrap();
    let q = AHPForPLONK::verifier_query_set(&vs).unwrap();
    let d = Domain::new(8).unwrap();
    let shifted = field::fp_mul(d.g, 1000);
    let want: Vec<(&str, u64)> = vec![
        ("w_0", 1000),
        ("w_1", 1000),
        ("w_2", 1000),
        ("w_3", 1000),
        ("z", shifted),
        ("sigma_0", 1000),
        ("sigma_1", 1000),
        ("t", 1000),
        ("r", 1000),
    ];
    assert_eq!(q.len(), want.len());
    for (got, expect) in q.iter().zip(want.iter()) {
        assert_eq!(got.0, expect.0);
        assert_eq!(got.1, expect.1);
    }
}

#[test]
fn prover_rounds_reject_out_of_order_calls() {
    let m = 4;
    let cs = Composer {
        q_0: vec![1; m],
        q_1: vec![0; m],
        q_2: vec![0; m],
        q_3: vec![0; m],
        q_m: vec![0; m],
        q_c: vec![field::P - 5; m],
        q_arith: vec![1; m],
        pi: vec![0; m],
        w_0: vec![5; m],
        w_1: vec![0; m],
        w_2: vec![0; m],
        w_3: vec![0; m],
        perm: (0..3 * m).collect(),
    };
    assert!(cs.check_valid());
    let keys = plonk::indexer::PreprocessorKeys::generate(&cs, [1, 7, 13, 17]).unwrap();
    let mut p = plonk::prover::Prover::init(&cs, &keys).unwrap();
    // the second round before the first is rejected
    let msg1 = plonk::rounds::FirstMsg { beta: 3, gamma: 4 };
    assert!(matches!(p.second_round(&msg1, &keys), Err(Error::OutOfOrder)));
    // the third round before the second is rejected
    let msg2 = plonk::rounds::SecondMsg { alpha: 5 };
    assert!(matches!(p.third_round(&msg2, &keys), Err(Error::OutOfOrder)));
    // in order, each round goes through exactly once
    let _o1 = p.first_round().unwrap();
    assert!(matches!(p.first_round(), Err(Error::OutOfOrder)));
    let _o2 = p.second_round(&msg1, &keys).unwrap();
    assert!(matches!(p.second_round(&msg1, &keys), Err(Error::OutOfOrder)));
    let _o3 = p.third_round(&msg2, &keys).unwrap();
    assert!(matches!(p.third_round(&msg2, &keys), Err(Error::OutOfOrder)));
}
