use dlog_proof::common::{
    after_draw, generate_random_number, DrawStep, RandomnessFailure, DRAW_LEN, MAX_DRAWS,
};
use dlog_proof::dlog_proof::{DLogProof, DecodeError};
use dlog_proof::point::Point;
use dlog_proof::scalar::Scalar;

const ORDER_MINUS_ONE: [u8; 32] = [
    0xff, 0xff, 0xff, 0xff, 0xff, 0xff, 0xff, 0xff, 0xff, 0xff, 0xff, 0xff, 0xff, 0xff, 0xff, 0xfe,
    0xba, 0xae, 0xdc, 0xe6, 0xaf, 0x48, 0xa0, 0x3b, 0xbf, 0xd2, 0x5e, 0x8c, 0xd0, 0x36, 0x41, 0x40,
];

const TWO_G: [u8; 33] = [
    0x02, 0xc6, 0x04, 0x7f, 0x94, 0x41, 0xed, 0x7d, 0x6d, 0x30, 0x45, 0x40, 0x6e, 0x95, 0xc0, 0x7c,
    0xd8, 0x5c, 0x77, 0x8e, 0x4b, 0x8c, 0xef, 0x3c, 0xa7, 0xab, 0xac, 0x09, 0xb9, 0x5c, 0x70, 0x9e,
    0xe5,
];

const THREE_G: [u8; 33] = [
    0x02, 0xf9, 0x30, 0x8a, 0x01, 0x92, 0x58, 0xc3, 0x10, 0x49, 0x34, 0x4f, 0x85, 0xf8, 0x9d, 0x52,
    0x29, 0xb5, 0x31, 0xc8, 0x45, 0x83, 0x6f, 0x99, 0xb0, 0x86, 0x01, 0xf1, 0x13, 0xbc, 0xe0, 0x36,
    0xf9,
];

const FIVE_G: [u8; 33] = [
    0x02, 0x2f, 0x8b, 0xde, 0x4d, 0x1a, 0x07, 0x20, 0x93, 0x55, 0xb4, 0xa7, 0x25, 0x0a, 0x5c, 0x51,
    0x28, 0xe8, 0x8b, 0x84, 0xbd, 0xdc, 0x61, 0x9a, 0xb7, 0xcb, 0xa8, 0xd5, 0x69, 0xb2, 0x40, 0xef,
    0xe4,
];

/// The proof for x = 2 under nonce 3, base G, sid "test_session_id", pid 42.
const FIXED_PROOF: [u8; 65] = [
    0x02, 0xf9, 0x30, 0x8a, 0x01, 0x92, 0x58, 0xc3, 0x10, 0x49, 0x34, 0x4f, 0x85, 0xf8, 0x9d, 0x52,
    0x29, 0xb5, 0x31, 0xc8, 0x45, 0x83, 0x6f, 0x99, 0xb0, 0x86, 0x01, 0xf1, 0x13, 0xbc, 0xe0, 0x36,
    0xf9, 0x68, 0x9a, 0x5b, 0xb2, 0xd6, 0x85, 0x38, 0x85, 0x2f, 0x38, 0x33, 0xde, 0x7d, 0x2b, 0xa5,
    0x1e, 0x02, 0x93, 0x15, 0xce, 0x5c, 0x1e, 0xb7, 0x44, 0x37, 0x3a, 0x79, 0xee, 0xff, 0x26, 0xd0,
    0x24,
];

fn small(v: u8) -> Scalar {
    let mut bytes = vec![0u8; 32];
    bytes[31] = v;
    Scalar::from_bytes(&bytes).unwrap()
}

#[test]
fn test_dlog_proof_generation_and_verification() {
    let sid = "test_session_id";
    let pid = 42;
    let base = Point::generator();
    let x = generate_random_number().unwrap();
    let y = base.mul(&x);
    let dlog_proof = DLogProof::prove(sid, pid, &x, &y, &base).unwrap();
    assert!(dlog_proof.verify(sid, pid, &y, &base), "DLOG proof verification failed");
}

#[test]
fn test_dlog_proof_verification_with_invalid_parameters() {
    let sid = "test_session_id";
    let pid = 42;
    let base = Point::generator();
    let x = generate_random_number().unwrap();
    let y = base.mul(&x);
    let dlog_proof = DLogProof::prove(sid, pid, &x, &y, &base).unwrap();
    let invalid_y = base.mul(&generate_random_number().unwrap());
    assert!(
        !dlog_proof.verify(sid, pid, &invalid_y, &base),
        "DLOG proof verification should fail with incorrect y"
    );
}

#[test]
fn test_dlog_proof_with_edge_cases() {
    let sid = "edge_case_sid";
    let pid = 1000;
    let base = Point::generator();

    let x = Scalar::zero();
    let y = base.mul(&x);
    assert_eq!(y, Point::identity());
    let dlog_proof = DLogProof::prove(sid, pid, &x, &y, &base).unwrap();
    assert!(
        dlog_proof.verify(sid, pid, &y, &base),
        "DLOG proof verification failed with zero scalar"
    );

    // 32 bytes of 0xFF denote a number above the group order: no scalar.
    assert!(Scalar::from_bytes(&vec![0xFF; 32]).is_none());
    let max_scalar = Scalar::from_bytes(&ORDER_MINUS_ONE.to_vec()).unwrap();
    let y_max = base.mul(&max_scalar);
    let dlog_proof_max = DLogProof::prove(sid, pid, &max_scalar, &y_max, &base).unwrap();
    assert!(
        dlog_proof_max.verify(sid, pid, &y_max, &base),
        "DLOG proof verification failed with maximum scalar"
    );
}

#[test]
fn test_consistency_of_multiple_proofs() {
    let sid = "consistency_sid";
    let pid = 2022;
    let base = Point::generator();
    let x1 = generate_random_number().unwrap();
    let y1 = base.mul(&x1);
    let x2 = generate_random_number().unwrap();
    let y2 = base.mul(&x2);
    let dlog_proof1 = DLogProof::prove(sid, pid, &x1, &y1, &base).unwrap();
    let dlog_proof2 = DLogProof::prove(sid, pid, &x2, &y2, &base).unwrap();
    assert!(
        dlog_proof1.verify(sid, pid, &y1, &base),
        "DLOG proof verification failed for first proof"
    );
    assert!(
        dlog_proof2.verify(sid, pid, &y2, &base),
        "DLOG proof verification failed for second proof"
    );
    assert!(!dlog_proof1.verify(sid, pid, &y2, &base));
    assert!(!dlog_proof2.verify(sid, pid, &y1, &base));
}

#[test]
fn honest_proofs_verify_for_small_secrets_and_other_bases() {
    let g = Point::generator();
    let base = g.mul(&small(7));
    for v in 0u8..6 {
        let x = small(v);
        let y = base.mul(&x);
        let proof = DLogProof::prove("sid", 1, &x, &y, &base).unwrap();
        assert!(proof.verify("sid", 1, &y, &base));
        assert!(!proof.verify("sid", 1, &y, &g));
    }
}

#[test]
fn changed_context_is_rejected() {
    let base = Point::generator();
    let x = small(9);
    let y = base.mul(&x);
    let proof = DLogProof::prove("test_session_id", 42, &x, &y, &base).unwrap();
    assert!(proof.verify("test_session_id", 42, &y, &base));
    assert!(!proof.verify("test_session_ie", 42, &y, &base));
    assert!(!proof.verify("test_session_id", 43, &y, &base));
    assert!(!proof.verify("", 42, &y, &base));
}

#[test]
fn mutated_response_is_rejected() {
    let base = Point::generator();
    let x = small(11);
    let y = base.mul(&x);
    let proof = DLogProof::prove("test_session_id", 42, &x, &y, &base).unwrap();
    assert!(proof.verify("test_session_id", 42, &y, &base));
    let mut decoded = DLogProof::decode(&proof.encode()).unwrap();
    decoded.s = decoded.s.add(&small(1));
    assert!(!decoded.verify("test_session_id", 42, &y, &base));
}

#[test]
fn proof_from_a_fixed_nonce_has_the_expected_bytes() {
    let base = Point::generator();
    let x = small(2);
    let y = base.mul(&x);
    let proof = DLogProof::prove_with_nonce("test_session_id", 42, &x, &y, &base, &small(3));
    assert_eq!(proof.encode(), FIXED_PROOF.to_vec());
    assert_eq!(proof.t.to_bytes(), THREE_G.to_vec());
    assert!(proof.verify("test_session_id", 42, &y, &base));
    let again = DLogProof::prove_with_nonce("test_session_id", 42, &x, &y, &base, &small(3));
    assert_eq!(again, proof);
}

#[test]
fn hash_points_gives_the_expected_challenge() {
    let none: Vec<Point> = Vec::new();
    let c = DLogProof::hash_points("test_session_id", 42, &none);
    assert_eq!(
        c.to_bytes(),
        vec![
            0xfc, 0x87, 0x24, 0x47, 0x78, 0xa6, 0x23, 0xdd, 0xbb, 0x51, 0xe1, 0xf5, 0xee, 0xf2,
            0x7c, 0x45, 0x30, 0xb9, 0x1c, 0x2e, 0xab, 0xc8, 0x44, 0x88, 0x06, 0x3c, 0x60, 0xaa,
            0xf7, 0xa3, 0x2b, 0xe5
        ]
    );
    let g = Point::generator();
    let points = vec![g.clone(), g.mul(&small(2)), Point::identity()];
    let c = DLogProof::hash_points("test_session_id", 42, &points);
    assert_eq!(
        c.to_bytes(),
        vec![
            0xac, 0xfc, 0x99, 0xfb, 0x4c, 0x52, 0x10, 0x4f, 0x8b, 0x43, 0x46, 0x7e, 0x7f, 0x9b,
            0x4a, 0x71, 0x07, 0x65, 0x6b, 0x1d, 0x47, 0x71, 0x2b, 0x96, 0x2a, 0xa6, 0x56, 0xd8,
            0x1e, 0x42, 0x30, 0xe3
        ]
    );
}

#[test]
fn hash_points_depends_on_order_and_context() {
    let g = Point::generator();
    let h = g.mul(&small(2));
    let a = DLogProof::hash_points("s", 1, &[g.clone(), h.clone()]);
    let b = DLogProof::hash_points("s", 1, &[h.clone(), g.clone()]);
    let c = DLogProof::hash_points("s", 2, &[g.clone(), h.clone()]);
    let d = DLogProof::hash_points("t", 1, &[g.clone(), h.clone()]);
    let again = DLogProof::hash_points("s", 1, &[g, h]);
    assert_eq!(a, again);
    assert_ne!(a, b);
    assert_ne!(a, c);
    assert_ne!(a, d);
}

#[test]
fn encoding_round_trips() {
    let base = Point::generator();
    for v in 0u8..5 {
        let x = small(v);
        let y = base.mul(&x);
        let proof = DLogProof::prove("rt", 7, &x, &y, &base).unwrap();
        let bytes = proof.encode();
        assert_eq!(bytes.len(), 65);
        let back = DLogProof::decode(&bytes).unwrap();
        assert_eq!(back, proof);
        assert_eq!(back.encode(), bytes);
    }
    let blank = DLogProof::new();
    assert_eq!(blank.encode(), vec![0u8; 65]);
    assert_eq!(DLogProof::decode(&vec![0u8; 65]).unwrap(), blank);
    assert_eq!(DLogProof::default(), blank);
}

#[test]
fn decode_refuses_wrong_lengths() {
    assert_eq!(DLogProof::decode(&Vec::new()), Err(DecodeError::InvalidPointEncoding));
    assert_eq!(DLogProof::decode(&FIXED_PROOF[..32].to_vec()), Err(DecodeError::InvalidPointEncoding));
    assert_eq!(DLogProof::decode(&FIXED_PROOF[..33].to_vec()), Err(DecodeError::InvalidScalarEncoding));
    assert_eq!(DLogProof::decode(&FIXED_PROOF[..64].to_vec()), Err(DecodeError::InvalidScalarEncoding));
    let mut long = FIXED_PROOF.to_vec();
    long.push(0);
    assert_eq!(DLogProof::decode(&long), Err(DecodeError::InvalidScalarEncoding));
    assert!(DLogProof::decode(&FIXED_PROOF.to_vec()).is_ok());
}

#[test]
fn decode_refuses_a_scalar_at_or_above_the_order() {
    let mut bytes = FIXED_PROOF.to_vec();
    bytes[33..].copy_from_slice(&[0xFF; 32]);
    assert_eq!(DLogProof::decode(&bytes), Err(DecodeError::InvalidScalarEncoding));
    bytes[33..].copy_from_slice(&ORDER_MINUS_ONE);
    assert!(DLogProof::decode(&bytes).is_ok());
    bytes[64] = 0x41;
    assert_eq!(DLogProof::decode(&bytes), Err(DecodeError::InvalidScalarEncoding));
}

#[test]
fn decode_refuses_bytes_that_are_no_point() {
    // x = 5 has no y on the curve.
    let mut bytes = vec![0u8; 65];
    bytes[0] = 2;
    bytes[32] = 5;
    assert_eq!(DLogProof::decode(&bytes), Err(DecodeError::InvalidPointEncoding));
    bytes[32] = 1;
    assert!(DLogProof::decode(&bytes).is_ok());
    // Unknown, uncompressed and compact tags.
    for tag in [1u8, 4, 5, 6, 0xFF] {
        let mut bytes = FIXED_PROOF.to_vec();
        bytes[0] = tag;
        assert_eq!(DLogProof::decode(&bytes), Err(DecodeError::InvalidPointEncoding));
    }
    // The identity's form is all zeros, nothing else under tag 0.
    let mut bytes = vec![0u8; 65];
    bytes[5] = 1;
    assert_eq!(DLogProof::decode(&bytes), Err(DecodeError::InvalidPointEncoding));
    // An x coordinate at or above the field prime.
    let mut bytes = vec![0xFFu8; 65];
    bytes[0] = 2;
    bytes[33..].copy_from_slice(&[0u8; 32]);
    assert_eq!(DLogProof::decode(&bytes), Err(DecodeError::InvalidPointEncoding));
}

#[test]
fn decoded_point_has_the_parity_of_its_tag() {
    let mut bytes = TWO_G.to_vec();
    let even = Point::from_bytes(&bytes).unwrap();
    bytes[0] = 3;
    let odd = Point::from_bytes(&bytes).unwrap();
    assert_ne!(even, odd);
    assert_eq!(even.to_sec1()[64] & 1, 0);
    assert_eq!(odd.to_sec1()[64] & 1, 1);
    assert_eq!(odd.to_bytes(), bytes);
    assert_eq!(even.add(&odd), Point::identity());
    assert!(Point::from_bytes(&bytes[..32].to_vec()).is_none());
}

#[test]
fn point_arithmetic_on_known_multiples() {
    let g = Point::generator();
    let sec1 = g.to_sec1();
    assert_eq!(sec1.len(), 65);
    assert_eq!(&sec1[..4], &[0x04, 0x79, 0xbe, 0x66]);
    assert_eq!(&sec1[61..], &[0xfb, 0x10, 0xd4, 0xb8]);
    let two = g.mul(&small(2));
    let three = g.mul(&small(3));
    assert_eq!(two.to_bytes(), TWO_G.to_vec());
    assert_eq!(three.to_bytes(), THREE_G.to_vec());
    assert_eq!(two.add(&three).to_bytes(), FIVE_G.to_vec());
    assert_eq!(g.add(&g), two);
    assert!(g.add(&g).same(&two));
    assert!(!g.same(&two));
    assert_eq!(g.add(&Point::identity()), g);
    assert_eq!(Point::identity().to_sec1(), vec![0u8]);
    assert_eq!(Point::identity().to_bytes(), vec![0u8; 33]);
    assert_eq!(Point::from_bytes(&vec![0u8; 33]).unwrap(), Point::identity());
    assert_eq!(Point::from_bytes(&FIVE_G.to_vec()).unwrap(), g.mul(&small(5)));
}

#[test]
fn scalar_arithmetic_is_modular() {
    let max = Scalar::from_bytes(&ORDER_MINUS_ONE.to_vec()).unwrap();
    assert_eq!(max.add(&small(1)), Scalar::zero());
    assert_eq!(max.add(&small(3)), small(2));
    assert_eq!(small(2).mul(&small(3)), small(6));
    assert_eq!(max.mul(&max), small(1));
    assert_eq!(max.mul(&small(2)).add(&small(2)), Scalar::zero());
    assert_eq!(Scalar::zero().to_bytes(), vec![0u8; 32]);
    assert_eq!(small(5).to_bytes()[31], 5);
}

#[test]
fn scalar_parsing_is_canonical() {
    assert!(Scalar::from_bytes(&vec![0u8; 31]).is_none());
    assert!(Scalar::from_bytes(&vec![0u8; 33]).is_none());
    assert!(Scalar::from_bytes(&Vec::new()).is_none());
    let mut order = ORDER_MINUS_ONE.to_vec();
    assert!(Scalar::from_bytes(&order).is_some());
    order[31] = 0x41;
    assert!(Scalar::from_bytes(&order).is_none());
    assert_eq!(Scalar::from_bytes_reduced(&order), Scalar::zero());
    let reduced = Scalar::from_bytes_reduced(&vec![0xFF; 32]);
    assert_eq!(
        reduced.to_bytes(),
        vec![
            0x00, 0x00, 0x00, 0x00, 0x00, 0x00, 0x00, 0x00, 0x00, 0x00, 0x00, 0x00, 0x00, 0x00,
            0x00, 0x01, 0x45, 0x51, 0x23, 0x19, 0x50, 0xb7, 0x5f, 0xc4, 0x40, 0x2d, 0xa1, 0x73,
            0x2f, 0xc9, 0xbe, 0xbe
        ]
    );
}

#[test]
fn random_scalars_are_fresh_and_canonical() {
    let a = generate_random_number().unwrap();
    let b = generate_random_number().unwrap();
    assert_ne!(a, b);
    assert!(Scalar::from_bytes(&a.to_bytes()).is_some());
    let base = Point::generator();
    let x = small(4);
    let y = base.mul(&x);
    let p = DLogProof::prove("s", 1, &x, &y, &base).unwrap();
    let q = DLogProof::prove("s", 1, &x, &y, &base).unwrap();
    assert_ne!(p.t, q.t);
}

#[test]
fn new_proof_is_identity_and_zero() {
    let p = DLogProof::new();
    assert_eq!(p.t, Point::identity());
    assert_eq!(p.s, Scalar::zero());
    let q = p.clone();
    assert_eq!(q, p);
}

#[test]
fn same_compares_both_parts() {
    let base = Point::generator();
    let x = small(2);
    let y = base.mul(&x);
    let p = DLogProof::prove_with_nonce("s", 1, &x, &y, &base, &small(3));
    let q = DLogProof::prove_with_nonce("s", 1, &x, &y, &base, &small(3));
    let r = DLogProof::prove_with_nonce("s", 1, &x, &y, &base, &small(4));
    assert!(p.same(&q));
    assert!(!p.same(&r));
    let mut moved = p.clone();
    moved.s = moved.s.add(&small(1));
    assert!(!p.same(&moved));
    assert!(small(6).same(&small(2).mul(&small(3))));
    assert!(!small(6).same(&small(7)));
    assert!(DLogProof::decode(&p.encode()).unwrap().same(&p));
}

#[test]
fn honest_proofs_verify_for_random_secrets() {
    let base = Point::generator().mul(&generate_random_number().unwrap());
    for pid in 0u32..8 {
        let x = generate_random_number().unwrap();
        let y = base.mul(&x);
        let proof = DLogProof::prove("random secrets", pid, &x, &y, &base).unwrap();
        assert!(proof.verify("random secrets", pid, &y, &base));
        let back = DLogProof::decode(&proof.encode()).unwrap();
        assert!(back.same(&proof));
        assert!(back.verify("random secrets", pid, &y, &base));
    }
}

#[test]
fn a_failed_draw_ends_the_drawing() {
    for made in 0..MAX_DRAWS {
        assert_eq!(
            after_draw(made, &None),
            DrawStep::Failed(RandomnessFailure::SourceUnavailable)
        );
    }
}

#[test]
fn a_canonical_draw_is_the_scalar() {
    let mut seven = vec![0u8; 32];
    seven[31] = 7;
    for made in 0..MAX_DRAWS {
        assert_eq!(after_draw(made, &Some(vec![0u8; 32])), DrawStep::Done(Scalar::zero()));
        assert_eq!(after_draw(made, &Some(seven.clone())), DrawStep::Done(small(7)));
        match after_draw(made, &Some(ORDER_MINUS_ONE.to_vec())) {
            DrawStep::Done(s) => assert_eq!(s.to_bytes(), ORDER_MINUS_ONE.to_vec()),
            other => panic!("the largest scalar was not kept: {:?}", other),
        }
    }
}

#[test]
fn a_refused_draw_is_drawn_again_until_the_last() {
    assert_eq!(MAX_DRAWS, 4);
    assert_eq!(DRAW_LEN, 32);
    let mut order = ORDER_MINUS_ONE.to_vec();
    order[31] = 0x41;
    for refused in [vec![0xFFu8; 32], order] {
        assert_eq!(after_draw(0, &Some(refused.clone())), DrawStep::Again);
        assert_eq!(after_draw(1, &Some(refused.clone())), DrawStep::Again);
        assert_eq!(after_draw(2, &Some(refused.clone())), DrawStep::Again);
        assert_eq!(
            after_draw(3, &Some(refused)),
            DrawStep::Failed(RandomnessFailure::DrawsRejected)
        );
    }
}

#[test]
fn drawing_succeeds_on_a_working_source() {
    for _ in 0..32 {
        let drawn = generate_random_number();
        assert!(drawn.is_ok());
        assert_ne!(drawn, Err(RandomnessFailure::DrawsRejected));
        assert_eq!(drawn.unwrap().to_bytes().len(), 32);
    }
    let base = Point::generator();
    let x = small(3);
    let y = base.mul(&x);
    assert!(DLogProof::prove("s", 1, &x, &y, &base).is_ok());
}
