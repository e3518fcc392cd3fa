#![allow(non_snake_case)]

use bls12_381::hash_to_curve::{ExpandMsgXmd, HashToCurve};
use bls12_381::{G1Affine, G1Projective, Scalar};
use sha2::Sha512;

use zkp::codec::{BatchableProof, CompactProof};
use zkp::point::PointElem;
use zkp::scalar::ScalarElem;
use zkp::statement::{Statement, StmtPointRef};
use zkp::transcript::ProofTranscript;

const DOMAIN: &[u8] = b"DALEK-ZKP-V01-CS02-with-BLS12381G1_XMD:SHA-256_SSWU_RO_";

fn hash_to_point(msg: &[u8]) -> PointElem {
    let h = <G1Projective as HashToCurve<ExpandMsgXmd<Sha512>>>::hash_to_curve(msg, DOMAIN);
    let bytes = G1Affine::from(&h).to_compressed().to_vec();
    PointElem::from_bytes(&bytes).unwrap()
}

fn scalar_from_bls(s: Scalar) -> ScalarElem {
    ScalarElem::from_bytes(&s.to_bytes().to_vec()).unwrap()
}

/// The statement `A = x * G, B = x * H` with secret `x`, instance points
/// `A, B, H` and static point `G`.
fn dleq() -> Statement {
    Statement {
        proof_label: b"DLEQ Example Proof".to_vec(),
        secret_names: vec![b"x".to_vec()],
        instance_point_names: vec![b"A".to_vec(), b"B".to_vec(), b"H".to_vec()],
        static_point_names: vec![b"G".to_vec()],
        equations: vec![
            (StmtPointRef::Instance(0), vec![(0, StmtPointRef::Static(0))]),
            (StmtPointRef::Instance(1), vec![(0, StmtPointRef::Instance(2))]),
        ],
    }
}

#[test]
fn create_and_verify_compact() {
    let stmt = dleq();
    let G = PointElem::generator();

    let (proof, points) = {
        let H = hash_to_point(b"A VRF input, for instance");
        let x = scalar_from_bls(Scalar::from(89327492234u64).invert().unwrap());
        let A = G.mul(&x);
        let B = H.mul(&x);

        let mut transcript = ProofTranscript::new(b"DLEQTest");
        stmt.prove_compact(
            &mut transcript,
            &vec![x],
            &vec![A, B, H],
            &vec![G.dup()],
        )
    };

    // Serialize and parse the wire representation.
    let proof_bytes = proof.to_bytes();
    let parsed_proof = CompactProof::from_bytes(&proof_bytes, 1).unwrap();

    let mut transcript = ProofTranscript::new(b"DLEQTest");
    assert!(stmt
        .verify_compact(
            &parsed_proof,
            &mut transcript,
            &vec![
                points[0].dup(),
                points[1].dup(),
                hash_to_point(b"A VRF input, for instance"),
            ],
            &vec![G.dup()],
        )
        .is_ok());
}

#[test]
fn create_and_verify_batchable() {
    let stmt = dleq();
    let G = PointElem::generator();

    let (proof, points) = {
        let H = hash_to_point(b"A VRF input, for instance");
        let x = scalar_from_bls(Scalar::from(89327492234u64).invert().unwrap());
        let A = G.mul(&x);
        let B = H.mul(&x);

        let mut transcript = ProofTranscript::new(b"DLEQTest");
        stmt.prove_batchable(
            &mut transcript,
            &vec![x],
            &vec![A, B, H],
            &vec![G.dup()],
        )
    };

    // Serialize and parse the wire representation.
    let proof_bytes = proof.to_bytes();
    let parsed_proof = BatchableProof::from_bytes(&proof_bytes, 2, 1).unwrap();

    let mut transcript = ProofTranscript::new(b"DLEQTest");
    assert!(stmt
        .verify_batchable(
            &parsed_proof,
            &mut transcript,
            &vec![
                points[0].dup(),
                points[1].dup(),
                hash_to_point(b"A VRF input, for instance"),
            ],
            &vec![G.dup()],
        )
        .is_ok());
}

#[test]
fn create_batch_and_batch_verify() {
    let messages = [
        "One message",
        "Another message",
        "A third message",
        "A fourth message",
    ];

    let stmt = dleq();
    let G = PointElem::generator();

    let mut proofs = vec![];
    let mut pubkeys = vec![];
    let mut vrf_outputs = vec![];

    for (i, message) in messages.iter().enumerate() {
        let H = hash_to_point(message.as_bytes());
        let x = ScalarElem::from_u64(89327492234u64 * ((i + 1) as u64));
        let A = G.mul(&x);
        let B = H.mul(&x);

        let mut transcript = ProofTranscript::new(b"DLEQTest");
        let (proof, points) = stmt.prove_batchable(
            &mut transcript,
            &vec![x],
            &vec![A, B, H],
            &vec![G.dup()],
        );

        proofs.push(proof);
        pubkeys.push(points[0].dup());
        vrf_outputs.push(points[1].dup());
    }

    let mut transcripts = vec![];
    for _ in 0..messages.len() {
        transcripts.push(ProofTranscript::new(b"DLEQTest"));
    }
    let hashes: Vec<PointElem> = messages.iter().map(|m| hash_to_point(m.as_bytes())).collect();

    assert!(stmt
        .batch_verify(
            &proofs,
            transcripts,
            vec![pubkeys, vrf_outputs, hashes],
            &vec![G.dup()],
        )
        .is_ok());
}

#[test]
fn batch_verify_rejects_tampered_output() {
    let messages = [
        "One message",
        "Another message",
        "A third message",
        "A fourth message",
    ];

    let stmt = dleq();
    let G = PointElem::generator();

    let mut proofs = vec![];
    let mut pubkeys = vec![];
    let mut vrf_outputs = vec![];

    for (i, message) in messages.iter().enumerate() {
        let H = hash_to_point(message.as_bytes());
        let x = ScalarElem::from_u64(89327492234u64 * ((i + 1) as u64));
        let A = G.mul(&x);
        let B = H.mul(&x);

        let mut transcript = ProofTranscript::new(b"DLEQTest");
        let (proof, points) = stmt.prove_batchable(
            &mut transcript,
            &vec![x],
            &vec![A, B, H],
            &vec![G.dup()],
        );

        proofs.push(proof);
        pubkeys.push(points[0].dup());
        vrf_outputs.push(points[1].dup());
    }

    // Replace one claimed output with a different group element.
    vrf_outputs[2] = vrf_outputs[2].add(&G);

    let mut transcripts = vec![];
    for _ in 0..messages.len() {
        transcripts.push(ProofTranscript::new(b"DLEQTest"));
    }
    let hashes: Vec<PointElem> = messages.iter().map(|m| hash_to_point(m.as_bytes())).collect();

    assert!(stmt
        .batch_verify(
            &proofs,
            transcripts,
            vec![pubkeys, vrf_outputs, hashes],
            &vec![G.dup()],
        )
        .is_err());
}

#[test]
fn batch_verify_rejects_length_mismatch() {
    let stmt = dleq();
    let G = PointElem::generator();

    let H = hash_to_point(b"One message");
    let x = ScalarElem::from_u64(89327492234u64);
    let A = G.mul(&x);
    let B = H.mul(&x);

    let mut transcript = ProofTranscript::new(b"DLEQTest");
    let (proof, _) = stmt.prove_batchable(
        &mut transcript,
        &vec![x],
        &vec![A.dup(), B.dup(), H.dup()],
        &vec![G.dup()],
    );

    // Two transcripts but only one value for each instance point.
    let transcripts = vec![
        ProofTranscript::new(b"DLEQTest"),
        ProofTranscript::new(b"DLEQTest"),
    ];
    let result = stmt.batch_verify(
        &vec![proof],
        transcripts,
        vec![vec![A], vec![B], vec![H]],
        &vec![G.dup()],
    );
    assert!(matches!(result, Err(zkp::errors::ProofError::LengthMismatch)));
}
