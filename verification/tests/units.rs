#![allow(non_snake_case)]

use zkp::codec::{BatchableProof, CompactProof};
use zkp::errors::ProofError;
use zkp::point::PointElem;
use zkp::scalar::ScalarElem;
use zkp::statement::{Statement, StmtPointRef};
use zkp::transcript::ProofTranscript;
use zkp::util::Matrix;

fn schnorr() -> Statement {
    Statement {
        proof_label: b"Schnorr".to_vec(),
        secret_names: vec![b"x".to_vec()],
        instance_point_names: vec![b"A".to_vec()],
        static_point_names: vec![b"B".to_vec()],
        equations: vec![(StmtPointRef::Instance(0), vec![(0, StmtPointRef::Static(0))])],
    }
}

#[test]
fn scalar_field_arithmetic() {
    let two = ScalarElem::from_u64(2);
    let three = ScalarElem::from_u64(3);
    let five = ScalarElem::from_u64(5);
    let six = ScalarElem::from_u64(6);
    assert!(two.add(&three).equals(&five));
    assert!(two.mul(&three).equals(&six));
    assert!(!two.add(&three).equals(&six));
}

#[test]
fn scalar_encoding_round_trip() {
    let x = ScalarElem::from_u64(89327492234u64);
    let bytes = x.to_bytes();
    assert_eq!(bytes.len(), 32);
    // Little-endian: the low bytes carry the value.
    assert_eq!(bytes[0], (89327492234u64 % 256) as u8);
    let back = ScalarElem::from_bytes(&bytes).unwrap();
    assert!(back.equals(&x));
}

#[test]
fn scalar_rejects_unreduced_bytes() {
    // The all-ones string is far above the field order.
    let bytes = vec![0xffu8; 32];
    assert!(ScalarElem::from_bytes(&bytes).is_none());
}

#[test]
fn point_group_arithmetic() {
    let g = PointElem::generator();
    let two = ScalarElem::from_u64(2);
    let double = g.add(&g);
    assert!(double.equals(&g.mul(&two)));
    assert!(!double.equals(&g));
    assert!(double.sub(&g).equals(&g));
    assert!(g.sub(&g).equals(&PointElem::identity()));
}

#[test]
fn point_encoding_round_trip() {
    let g = PointElem::generator();
    let p = g.mul(&ScalarElem::from_u64(7));
    let bytes = p.to_bytes();
    assert_eq!(bytes.len(), 48);
    let back = PointElem::from_bytes(&bytes).unwrap();
    assert!(back.equals(&p));
    assert_eq!(back.to_bytes(), bytes);
}

#[test]
fn point_decode_rejects_malformed_bytes() {
    let mut bytes = PointElem::generator().to_bytes();
    // Clearing the compression flag makes the encoding non-canonical.
    bytes[0] = bytes[0] & 0x1f;
    assert!(matches!(
        PointElem::decode(&bytes),
        Err(ProofError::PointMalformed)
    ));
}

#[test]
fn transcript_challenges_are_deterministic() {
    let mut t1 = ProofTranscript::new(b"test");
    let mut t2 = ProofTranscript::new(b"test");
    t1.append_message(b"m", b"hello");
    t2.append_message(b"m", b"hello");
    let c1 = t1.challenge_bytes(b"c", 64);
    let c2 = t2.challenge_bytes(b"c", 64);
    assert_eq!(c1, c2);

    // Squeezing advances the state deterministically on both sides.
    let d1 = t1.challenge_bytes(b"c", 64);
    let d2 = t2.challenge_bytes(b"c", 64);
    assert_eq!(d1, d2);
    assert_ne!(c1, d1);

    // A different absorbed message yields a different challenge.
    let mut t3 = ProofTranscript::new(b"test");
    t3.append_message(b"m", b"hullo");
    let c3 = t3.challenge_bytes(b"c", 64);
    assert_ne!(c1, c3);
}

#[test]
fn compact_proof_round_trip_bytes() {
    let stmt = schnorr();
    let B = PointElem::generator();
    let x = ScalarElem::from_u64(424242);
    let A = B.mul(&x);

    let mut transcript = ProofTranscript::new(b"round trip");
    let (proof, _) = stmt.prove_compact(
        &mut transcript,
        &vec![x],
        &vec![A.dup()],
        &vec![B.dup()],
    );

    let bytes = proof.to_bytes();
    assert_eq!(bytes.len(), 64);
    let parsed = CompactProof::from_bytes(&bytes, 1).unwrap();
    // Byte-for-byte round trip in both directions.
    assert_eq!(parsed.to_bytes(), bytes);
    assert!(parsed.challenge.equals(&proof.challenge));
    assert!(parsed.responses[0].equals(&proof.responses[0]));

    // A proof parsed from the wire verifies exactly as the original.
    let mut t1 = ProofTranscript::new(b"round trip");
    assert!(stmt
        .verify_compact(&parsed, &mut t1, &vec![A.dup()], &vec![B.dup()])
        .is_ok());
}

#[test]
fn batchable_proof_round_trip_bytes() {
    let stmt = schnorr();
    let B = PointElem::generator();
    let x = ScalarElem::from_u64(98765);
    let A = B.mul(&x);

    let mut transcript = ProofTranscript::new(b"round trip");
    let (proof, _) = stmt.prove_batchable(
        &mut transcript,
        &vec![x],
        &vec![A.dup()],
        &vec![B.dup()],
    );

    let bytes = proof.to_bytes();
    assert_eq!(bytes.len(), 80);
    let parsed = BatchableProof::from_bytes(&bytes, 1, 1).unwrap();
    assert_eq!(parsed.to_bytes(), bytes);

    let mut t1 = ProofTranscript::new(b"round trip");
    assert!(stmt
        .verify_batchable(&parsed, &mut t1, &vec![A.dup()], &vec![B.dup()])
        .is_ok());
}

#[test]
fn single_byte_mutation_breaks_proof() {
    let stmt = schnorr();
    let B = PointElem::generator();
    let x = ScalarElem::from_u64(31337);
    let A = B.mul(&x);

    let mut transcript = ProofTranscript::new(b"mutation");
    let (proof, _) = stmt.prove_compact(
        &mut transcript,
        &vec![x],
        &vec![A.dup()],
        &vec![B.dup()],
    );
    let bytes = proof.to_bytes();

    for position in 0..bytes.len() {
        let mut mutated = bytes.clone();
        mutated[position] = mutated[position] ^ 0x01;
        match CompactProof::from_bytes(&mutated, 1) {
            // The mutated byte string either no longer parses...
            None => {},
            Some(parsed) => {
                // ... or parses to a proof that fails verification.
                let mut t = ProofTranscript::new(b"mutation");
                assert!(stmt
                    .verify_compact(&parsed, &mut t, &vec![A.dup()], &vec![B.dup()])
                    .is_err());
            },
        }
    }
}

#[test]
fn compact_parse_rejects_wrong_arity() {
    let stmt = schnorr();
    let B = PointElem::generator();
    let x = ScalarElem::from_u64(5);
    let A = B.mul(&x);
    let mut transcript = ProofTranscript::new(b"arity");
    let (proof, _) = stmt.prove_compact(
        &mut transcript,
        &vec![x],
        &vec![A],
        &vec![B],
    );
    let bytes = proof.to_bytes();
    assert!(CompactProof::from_bytes(&bytes, 2).is_none());
    assert!(CompactProof::from_bytes(&bytes, 0).is_none());
    let truncated = bytes[..63].to_vec();
    assert!(CompactProof::from_bytes(&truncated, 1).is_none());
}

#[test]
fn verification_failure_on_wrong_witness() {
    let stmt = schnorr();
    let B = PointElem::generator();
    let x = ScalarElem::from_u64(11);
    // Claim A = 12 * B while proving knowledge of 11.
    let A = B.mul(&ScalarElem::from_u64(12));

    let mut transcript = ProofTranscript::new(b"wrong witness");
    let (proof, _) = stmt.prove_compact(
        &mut transcript,
        &vec![x],
        &vec![A.dup()],
        &vec![B.dup()],
    );
    let mut t = ProofTranscript::new(b"wrong witness");
    assert!(matches!(
        stmt.verify_compact(&proof, &mut t, &vec![A.dup()], &vec![B.dup()]),
        Err(ProofError::VerificationFailure)
    ));
}

#[test]
fn honest_prove_then_verify_compact_accepts() {
    let stmt = schnorr();
    let B = PointElem::generator();
    let x = ScalarElem::from_u64(7788990011);
    let A = B.mul(&x);

    let mut pt = ProofTranscript::new(b"end to end");
    let mut vt = ProofTranscript::new(b"end to end");
    let (_proof, _points, result) = zkp::laws::prove_then_verify_compact(
        &stmt,
        &mut pt,
        &mut vt,
        &vec![x],
        &vec![A],
        &vec![B],
    );
    assert!(result.is_ok());
}

#[test]
fn honest_prove_then_verify_batchable_accepts() {
    let stmt = schnorr();
    let B = PointElem::generator();
    let x = ScalarElem::from_u64(1122334455);
    let A = B.mul(&x);

    let mut pt = ProofTranscript::new(b"end to end");
    let mut vt = ProofTranscript::new(b"end to end");
    let (_proof, _points, result) = zkp::laws::prove_then_verify_batchable(
        &stmt,
        &mut pt,
        &mut vt,
        &vec![x],
        &vec![A],
        &vec![B],
    );
    assert!(result.is_ok());
}

#[test]
fn statement_rejects_name_collisions() {
    let ok = schnorr();
    assert!(ok.names_distinct());

    let clash = Statement {
        proof_label: b"Schnorr".to_vec(),
        secret_names: vec![b"x".to_vec()],
        instance_point_names: vec![b"A".to_vec()],
        // Reuses the secret's name in another category.
        static_point_names: vec![b"x".to_vec()],
        equations: vec![(StmtPointRef::Instance(0), vec![(0, StmtPointRef::Static(0))])],
    };
    assert!(!clash.names_distinct());
}

#[test]
fn honest_prove_then_batch_verify_accepts() {
    let stmt = schnorr();
    let B = PointElem::generator();
    let n = 3usize;

    let mut witnesses = vec![];
    let mut pubkeys = vec![];
    for j in 0..n {
        let x = ScalarElem::from_u64(1000 + j as u64);
        pubkeys.push(B.mul(&x));
        witnesses.push(vec![x]);
    }

    let mut prover_transcripts = vec![];
    let mut verifier_transcripts = vec![];
    for _ in 0..n {
        prover_transcripts.push(ProofTranscript::new(b"batch end to end"));
        verifier_transcripts.push(ProofTranscript::new(b"batch end to end"));
    }

    let (_proofs, result) = zkp::laws::prove_then_batch_verify(
        &stmt,
        prover_transcripts,
        verifier_transcripts,
        &witnesses,
        vec![pubkeys],
        &vec![B],
    );
    assert!(result.is_ok());
}

#[test]
fn matrix_storage_is_row_major() {
    let mut m: Matrix<u64> = Matrix::new(2, 3);
    assert_eq!(m.row_major_entries().len(), 6);
    assert!(m.row_major_entries().iter().all(|e| *e == 0));
    m.set_entry(0, 2, 7);
    m.set_entry(1, 0, 9);
    assert_eq!(*m.entry(0, 2), 7);
    assert_eq!(*m.entry(1, 0), 9);
    assert_eq!(m.row_major_entries()[2], 7);
    assert_eq!(m.row_major_entries()[3], 9);
}
