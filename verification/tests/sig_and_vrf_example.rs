#![allow(non_snake_case)]

use bls12_381::hash_to_curve::{ExpandMsgXmd, HashToCurve};
use bls12_381::{G1Affine, G1Projective};
use sha2::Sha512;

use zkp::codec::{BatchableProof, CompactProof};
use zkp::errors::ProofError;
use zkp::point::PointElem;
use zkp::scalar::ScalarElem;
use zkp::statement::{Statement, StmtPointRef};
use zkp::transcript::ProofTranscript;

const DOMAIN: &[u8] = b"DALEK-ZKP-V01-CS02-with-BLS12381G1_XMD:SHA-256_SSWU_RO_";

/// The statement `A = x * B` with secret `x`, instance point `A` and
/// static point `B`.
fn sig_proof() -> Statement {
    Statement {
        proof_label: b"Sig".to_vec(),
        secret_names: vec![b"x".to_vec()],
        instance_point_names: vec![b"A".to_vec()],
        static_point_names: vec![b"B".to_vec()],
        equations: vec![(StmtPointRef::Instance(0), vec![(0, StmtPointRef::Static(0))])],
    }
}

/// The statement `A = x * B, G = x * H` with secret `x`, instance points
/// `A, G, H` and static point `B`.
fn vrf_proof() -> Statement {
    Statement {
        proof_label: b"VRF".to_vec(),
        secret_names: vec![b"x".to_vec()],
        instance_point_names: vec![b"A".to_vec(), b"G".to_vec(), b"H".to_vec()],
        static_point_names: vec![b"B".to_vec()],
        equations: vec![
            (StmtPointRef::Instance(0), vec![(0, StmtPointRef::Static(0))]),
            (StmtPointRef::Instance(1), vec![(0, StmtPointRef::Instance(2))]),
        ],
    }
}

fn append_message_example(transcript: &mut ProofTranscript, message: &[u8]) {
    transcript.append_message(b"msg", message);
}

fn hash_to_group(mut transcript: ProofTranscript) -> PointElem {
    let bytes = transcript.challenge_bytes(b"output", 48);
    let h = <G1Projective as HashToCurve<ExpandMsgXmd<Sha512>>>::hash_to_curve(
        bytes.as_slice(),
        DOMAIN,
    );
    let enc = G1Affine::from(&h).to_compressed().to_vec();
    PointElem::from_bytes(&enc).unwrap()
}

struct KeyPair {
    sk: ScalarElem,
    pk: PointElem,
}

impl KeyPair {
    fn generate() -> KeyPair {
        let sk = ScalarElem::random_os();
        let pk = PointElem::generator().mul(&sk);
        KeyPair { sk, pk }
    }

    fn public_key(&self) -> PointElem {
        self.pk.dup()
    }

    fn sign(&self, message: &[u8], sig_transcript: &mut ProofTranscript) -> BatchableProof {
        append_message_example(sig_transcript, message);
        let (proof, _points) = sig_proof().prove_batchable(
            sig_transcript,
            &vec![self.sk.dup()],
            &vec![self.pk.dup()],
            &vec![PointElem::generator()],
        );
        proof
    }

    fn vrf(
        &self,
        mut function_transcript: ProofTranscript,
        message: &[u8],
        proof_transcript: &mut ProofTranscript,
    ) -> (PointElem, CompactProof) {
        // Use the function transcript to hash the message to a point H.
        append_message_example(&mut function_transcript, message);
        let H = hash_to_group(function_transcript);

        // Compute the VRF output G and form a proof for it.
        let G = H.mul(&self.sk);
        let (proof, points) = vrf_proof().prove_compact(
            proof_transcript,
            &vec![self.sk.dup()],
            &vec![self.pk.dup(), G, H],
            &vec![PointElem::generator()],
        );
        (points[1].dup(), proof)
    }
}

fn verify_sig(
    proof: &BatchableProof,
    message: &[u8],
    pubkey: &PointElem,
    sig_transcript: &mut ProofTranscript,
) -> Result<(), ProofError> {
    append_message_example(sig_transcript, message);
    sig_proof().verify_batchable(
        proof,
        sig_transcript,
        &vec![pubkey.dup()],
        &vec![PointElem::generator()],
    )
}

fn verify_vrf(
    output: &PointElem,
    mut function_transcript: ProofTranscript,
    message: &[u8],
    pubkey: &PointElem,
    proof_transcript: &mut ProofTranscript,
    proof: &CompactProof,
) -> Result<(), ProofError> {
    append_message_example(&mut function_transcript, message);
    let H = hash_to_group(function_transcript);

    vrf_proof().verify_compact(
        proof,
        proof_transcript,
        &vec![pubkey.dup(), output.dup(), H],
        &vec![PointElem::generator()],
    )
}

#[test]
fn create_and_verify_sig() {
    let domain_sep = b"My Sig Application";
    let msg1 = b"Test Message 1";
    let msg2 = b"Test Message 2";

    let kp1 = KeyPair::generate();
    let pk1 = kp1.public_key();
    let kp2 = KeyPair::generate();
    let pk2 = kp2.public_key();

    let sig1 = kp1.sign(&msg1[..], &mut ProofTranscript::new(domain_sep));
    let sig2 = kp2.sign(&msg2[..], &mut ProofTranscript::new(domain_sep));

    // Check that each signature verifies.
    assert!(verify_sig(&sig1, msg1, &pk1, &mut ProofTranscript::new(domain_sep)).is_ok());
    assert!(verify_sig(&sig2, msg2, &pk2, &mut ProofTranscript::new(domain_sep)).is_ok());

    // Check that verification with the wrong pubkey fails.
    assert!(verify_sig(&sig1, msg1, &pk2, &mut ProofTranscript::new(domain_sep)).is_err());
    assert!(verify_sig(&sig2, msg2, &pk1, &mut ProofTranscript::new(domain_sep)).is_err());

    // Check that verification with the wrong message fails.
    assert!(verify_sig(&sig1, msg2, &pk1, &mut ProofTranscript::new(domain_sep)).is_err());
    assert!(verify_sig(&sig2, msg1, &pk2, &mut ProofTranscript::new(domain_sep)).is_err());

    // Check that verification with the wrong domain separator fails.
    assert!(verify_sig(&sig1, msg1, &pk1, &mut ProofTranscript::new(b"Wrong")).is_err());
    assert!(verify_sig(&sig2, msg2, &pk2, &mut ProofTranscript::new(b"Wrong")).is_err());
}

#[test]
fn counterparty_signature_chain() {
    let domain_sep = b"Counterparty Example";

    let msg1a = b"In this test, two counterparties exchange signatures.";
    let msg2a = b"However, the counterparties sign and verify messages";
    let msg1b = b"using stateful transcript objects.";
    let msg2b = b"When party 1 signs, the party 1 transcript changes;";
    let msg1c = b"when party 2 verifies, the party 2 transcript syncs.";
    let msg2c = b"In this way, the transcript states ratchet stateful signatures.";

    let kp1 = KeyPair::generate();
    let pk1 = kp1.public_key();
    let kp2 = KeyPair::generate();
    let pk2 = kp2.public_key();

    let mut trans1 = ProofTranscript::new(domain_sep);
    let mut trans2 = ProofTranscript::new(domain_sep);

    // Round a, Party 1 -----> Party 2
    let sig1a = kp1.sign(&msg1a[..], &mut trans1);
    assert!(verify_sig(&sig1a, msg1a, &pk1, &mut trans2).is_ok());
    // Round a, Party 2 -----> Party 1
    let sig2a = kp2.sign(&msg2a[..], &mut trans2);
    assert!(verify_sig(&sig2a, msg2a, &pk2, &mut trans1).is_ok());

    // Round b, Party 1 -----> Party 2
    let sig1b = kp1.sign(&msg1b[..], &mut trans1);
    assert!(verify_sig(&sig1b, msg1b, &pk1, &mut trans2).is_ok());
    // Round b, Party 2 -----> Party 1
    let sig2b = kp2.sign(&msg2b[..], &mut trans2);
    assert!(verify_sig(&sig2b, msg2b, &pk2, &mut trans1).is_ok());

    // Round c, Party 1 -----> Party 2
    let sig1c = kp1.sign(&msg1c[..], &mut trans1);
    assert!(verify_sig(&sig1c, msg1c, &pk1, &mut trans2).is_ok());
    // Round c, Party 2 -----> Party 1
    let sig2c = kp2.sign(&msg2c[..], &mut trans2);
    assert!(verify_sig(&sig2c, msg2c, &pk2, &mut trans1).is_ok());
}

#[test]
fn create_and_verify_vrf() {
    let domain_sep = b"My VRF Application";
    let msg1 = b"Test Message 1";
    let msg2 = b"Test Message 2";

    let kp1 = KeyPair::generate();
    let pk1 = kp1.public_key();
    let kp2 = KeyPair::generate();
    let pk2 = kp2.public_key();

    let (output1, proof1) = kp1.vrf(
        ProofTranscript::new(domain_sep),
        &msg1[..],
        &mut ProofTranscript::new(domain_sep),
    );

    let (output2, proof2) = kp2.vrf(
        ProofTranscript::new(domain_sep),
        &msg2[..],
        &mut ProofTranscript::new(domain_sep),
    );

    // Check that each VRF output was correctly produced.
    assert!(verify_vrf(
        &output1,
        ProofTranscript::new(domain_sep),
        msg1,
        &pk1,
        &mut ProofTranscript::new(domain_sep),
        &proof1,
    )
    .is_ok());
    assert!(verify_vrf(
        &output2,
        ProofTranscript::new(domain_sep),
        msg2,
        &pk2,
        &mut ProofTranscript::new(domain_sep),
        &proof2,
    )
    .is_ok());

    // Check that verification with the wrong pubkey fails.
    assert!(verify_vrf(
        &output1,
        ProofTranscript::new(domain_sep),
        msg1,
        &pk2, // swap pubkey
        &mut ProofTranscript::new(domain_sep),
        &proof1,
    )
    .is_err());
    assert!(verify_vrf(
        &output2,
        ProofTranscript::new(domain_sep),
        msg2,
        &pk1, // swap pubkey
        &mut ProofTranscript::new(domain_sep),
        &proof2,
    )
    .is_err());

    // Check that verification with the wrong output fails.
    assert!(verify_vrf(
        &output2, // swap output
        ProofTranscript::new(domain_sep),
        msg1,
        &pk1,
        &mut ProofTranscript::new(domain_sep),
        &proof1,
    )
    .is_err());
    assert!(verify_vrf(
        &output1, // swap output
        ProofTranscript::new(domain_sep),
        msg2,
        &pk2,
        &mut ProofTranscript::new(domain_sep),
        &proof2,
    )
    .is_err());

    // Check that verification with the wrong domain separator fails.
    assert!(verify_vrf(
        &output1,
        ProofTranscript::new(domain_sep),
        msg1,
        &pk1,
        &mut ProofTranscript::new(b"A different application"), // swap dom-sep
        &proof1,
    )
    .is_err());
    assert!(verify_vrf(
        &output2,
        ProofTranscript::new(domain_sep),
        msg2,
        &pk2,
        &mut ProofTranscript::new(b"A different application"), // swap dom-sep
        &proof2,
    )
    .is_err());
}
