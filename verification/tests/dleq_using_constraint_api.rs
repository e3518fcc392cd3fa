#![allow(non_snake_case)]

use bls12_381::hash_to_curve::{ExpandMsgXmd, HashToCurve};
use bls12_381::{G1Affine, G1Projective};
use sha2::Sha512;

use zkp::point::PointElem;
use zkp::scalar::ScalarElem;
use zkp::toolbox::prover::Prover;
use zkp::toolbox::single_verifier::Verifier;
use zkp::toolbox::SchnorrCS;
use zkp::transcript::ProofTranscript;

const DOMAIN: &[u8] = b"DALEK-ZKP-V01-CS02-with-BLS12381G1_XMD:SHA-256_SSWU_RO_";

fn hash_to_point(msg: &[u8]) -> PointElem {
    let h = <G1Projective as HashToCurve<ExpandMsgXmd<Sha512>>>::hash_to_curve(msg, DOMAIN);
    let bytes = G1Affine::from(&h).to_compressed().to_vec();
    PointElem::from_bytes(&bytes).unwrap()
}

fn dleq_statement<CS: SchnorrCS>(
    cs: &mut CS,
    x: CS::ScalarVar,
    A: CS::PointVar,
    G: CS::PointVar,
    B: CS::PointVar,
    H: CS::PointVar,
) where
    CS::ScalarVar: Copy,
    CS::PointVar: Copy,
{
    cs.constrain(A, vec![(x, B)]);
    cs.constrain(G, vec![(x, H)]);
}

#[test]
fn create_and_verify_compact_dleq() {
    let B = PointElem::generator();
    let H = hash_to_point(&B.to_bytes());

    let (proof, cmpr_A, cmpr_G) = {
        let x = ScalarElem::from_u64(89327492234u64);

        let A = B.mul(&x);
        let G = H.mul(&x);

        let mut transcript = ProofTranscript::new(b"DLEQTest");
        let mut prover = Prover::new(b"DLEQProof", &mut transcript);

        let var_x = prover.allocate_scalar(&mut transcript, b"x", x);
        let (var_B, _) = prover.allocate_point(&mut transcript, b"B", B.dup());
        let (var_H, _) = prover.allocate_point(&mut transcript, b"H", H.dup());
        let (var_A, cmpr_A) = prover.allocate_point(&mut transcript, b"A", A);
        let (var_G, cmpr_G) = prover.allocate_point(&mut transcript, b"G", G);

        dleq_statement(&mut prover, var_x, var_A, var_G, var_B, var_H);

        (prover.prove_compact(&mut transcript), cmpr_A, cmpr_G)
    };

    let mut transcript = ProofTranscript::new(b"DLEQTest");
    let mut verifier = Verifier::new(b"DLEQProof", &mut transcript);

    let var_x = verifier.allocate_scalar(&mut transcript, b"x");
    let var_B = verifier.allocate_point(&mut transcript, b"B", B.dup()).unwrap();
    let var_H = verifier.allocate_point(&mut transcript, b"H", H.dup()).unwrap();
    let var_A = verifier.allocate_point(&mut transcript, b"A", cmpr_A).unwrap();
    let var_G = verifier.allocate_point(&mut transcript, b"G", cmpr_G).unwrap();

    dleq_statement(&mut verifier, var_x, var_A, var_G, var_B, var_H);

    assert!(verifier.verify_compact(&mut transcript, &proof).is_ok());
}

#[test]
fn compact_dleq_rejects_mutated_instance_point() {
    let B = PointElem::generator();
    let H = hash_to_point(&B.to_bytes());

    let (proof, cmpr_A, cmpr_G) = {
        let x = ScalarElem::from_u64(89327492234u64);
        let A = B.mul(&x);
        let G = H.mul(&x);

        let mut transcript = ProofTranscript::new(b"DLEQTest");
        let mut prover = Prover::new(b"DLEQProof", &mut transcript);
        let var_x = prover.allocate_scalar(&mut transcript, b"x", x);
        let (var_B, _) = prover.allocate_point(&mut transcript, b"B", B.dup());
        let (var_H, _) = prover.allocate_point(&mut transcript, b"H", H.dup());
        let (var_A, cmpr_A) = prover.allocate_point(&mut transcript, b"A", A);
        let (var_G, cmpr_G) = prover.allocate_point(&mut transcript, b"G", G);
        dleq_statement(&mut prover, var_x, var_A, var_G, var_B, var_H);
        (prover.prove_compact(&mut transcript), cmpr_A, cmpr_G)
    };

    // Replace the public instance point A with a different group element.
    let wrong_A = cmpr_A.add(&PointElem::generator());

    let mut transcript = ProofTranscript::new(b"DLEQTest");
    let mut verifier = Verifier::new(b"DLEQProof", &mut transcript);
    let var_x = verifier.allocate_scalar(&mut transcript, b"x");
    let var_B = verifier.allocate_point(&mut transcript, b"B", B.dup()).unwrap();
    let var_H = verifier.allocate_point(&mut transcript, b"H", H.dup()).unwrap();
    let var_A = verifier.allocate_point(&mut transcript, b"A", wrong_A).unwrap();
    let var_G = verifier.allocate_point(&mut transcript, b"G", cmpr_G).unwrap();
    dleq_statement(&mut verifier, var_x, var_A, var_G, var_B, var_H);

    assert!(verifier.verify_compact(&mut transcript, &proof).is_err());
}
