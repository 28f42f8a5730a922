use danake::constants::{base, blinding_base};
use danake::range::{commit, prove_range, verify_range, RangeProof};
use danake::statement::{prove, verify, Relation, Statement, Term};
use danake::transcript::epoch_bytes;
use danake::{EpochParameters, ProofTranscript, Scalar, TranscriptProtocol};

fn knowledge_of_exponent() -> Statement {
    Statement {
        label: "exponent",
        scalars: vec!["x"],
        points: vec!["A", "B"],
        relations: vec![Relation { lhs: 0, terms: vec![Term { scalar: 0, point: 1 }] }],
    }
}

/// Proves on `prover` and verifies on `verifier`; tells whether the proof was accepted.
fn accepted_across(mut prover: ProofTranscript, mut verifier: ProofTranscript) -> bool {
    let statement = knowledge_of_exponent();
    let x = Scalar::from_u64(31337);
    let (proof, points) = prove(&mut prover, &statement, &vec![x], &vec![base().mul(&x), base()]);
    verify(&mut verifier, &statement, &points, &proof)
}

#[test]
fn epoch_is_appended_as_sixteen_little_endian_bytes() {
    let epoch = EpochParameters::new(86400).epoch_at(1_700_000_000);
    assert_eq!(
        epoch_bytes(&epoch),
        [0x80, 0x51, 0x01, 0, 0, 0, 0, 0, 0xdb, 0x4c, 0, 0, 0, 0, 0, 0]
    );
    let epoch = EpochParameters::new(0x0102_0304_0506_0708).epoch_at(-1);
    assert_eq!(
        epoch_bytes(&epoch),
        [8, 7, 6, 5, 4, 3, 2, 1, 0xff, 0xff, 0xff, 0xff, 0xff, 0xff, 0xff, 0xff]
    );
    let epoch = EpochParameters::new(1).epoch_at(-2);
    assert_eq!(epoch_bytes(&epoch)[8..], [0xfe, 0xff, 0xff, 0xff, 0xff, 0xff, 0xff, 0xff]);
}

#[test]
fn proofs_are_bound_to_the_label_of_the_transcript() {
    assert!(accepted_across(ProofTranscript::new(b"a"), ProofTranscript::new(b"a")));
    assert!(!accepted_across(ProofTranscript::new(b"a"), ProofTranscript::new(b"b")));
}

#[test]
fn proofs_are_bound_to_the_messages_of_the_transcript() {
    let with = |message: &[u8]| {
        let mut transcript = ProofTranscript::new(b"test");
        transcript.append_message(b"note", message);
        transcript
    };
    assert!(accepted_across(with(b"one"), with(b"one")));
    assert!(!accepted_across(with(b"one"), with(b"two")));
    assert!(!accepted_across(with(b"one"), ProofTranscript::new(b"test")));
}

#[test]
fn proofs_are_bound_to_the_domain_separator_and_the_epoch() {
    let params = EpochParameters::new(86400);
    let with = |time: i64, separated: bool| {
        let mut transcript = ProofTranscript::new(b"test");
        if separated {
            transcript.dom_sep();
        }
        transcript.append_epoch(params.epoch_at(time));
        transcript
    };
    assert!(accepted_across(with(1_700_000_000, true), with(1_700_000_001, true)));
    assert!(!accepted_across(with(1_700_000_000, true), with(1_700_086_400, true)));
    assert!(!accepted_across(with(1_700_000_000, true), with(1_700_000_000, false)));
    // Appending an epoch is appending its sixteen bytes under the label "epoch".
    let mut by_hand = ProofTranscript::new(b"test");
    by_hand.append_message(b"dom-sep", b"Danake v0.1");
    by_hand.append_message(b"epoch", &epoch_bytes(&params.epoch_at(1_700_000_000)));
    assert!(accepted_across(with(1_700_000_000, true), by_hand));
}

#[test]
fn range_proof_round_trip() {
    let p = base().mul(&Scalar::from_u64(99));
    let blinding = Scalar::from_u64(424242);
    let value = 3000u64;
    let mut transcript = ProofTranscript::new(b"range");
    let proof = prove_range(&mut transcript, &p, value, &blinding).expect("proof is made");
    let commitment = commit(&p, &Scalar::from_u64(value), &blinding).compress();

    let mut transcript = ProofTranscript::new(b"range");
    assert!(verify_range(&mut transcript, &proof, &p, &commitment));
}

#[test]
fn range_proof_is_rejected_for_another_commitment_base_or_transcript() {
    let p = base().mul(&Scalar::from_u64(99));
    let blinding = Scalar::from_u64(424242);
    let mut transcript = ProofTranscript::new(b"range");
    let proof = prove_range(&mut transcript, &p, 3000, &blinding).expect("proof is made");
    let commitment = commit(&p, &Scalar::from_u64(3000), &blinding).compress();
    let other = commit(&p, &Scalar::from_u64(3001), &blinding).compress();

    assert!(!verify_range(&mut ProofTranscript::new(b"range"), &proof, &p, &other));
    assert!(!verify_range(&mut ProofTranscript::new(b"range"), &proof, &base(), &commitment));
    assert!(!verify_range(&mut ProofTranscript::new(b"other"), &proof, &p, &commitment));
    assert!(verify_range(&mut ProofTranscript::new(b"range"), &proof, &p, &commitment));
}

#[test]
fn range_proof_that_does_not_parse_is_rejected() {
    let p = blinding_base();
    let commitment = commit(&p, &Scalar::from_u64(1), &Scalar::from_u64(2)).compress();
    for bytes in [vec![], vec![0u8; 31], vec![0u8; 7 * 32], vec![0xffu8; 21 * 32]] {
        let proof = RangeProof { bytes };
        assert!(!verify_range(&mut ProofTranscript::new(b"range"), &proof, &p, &commitment));
    }
}

#[test]
fn range_proof_for_a_commitment_to_a_negative_value_is_rejected() {
    // A commitment to -1, which is far above 2^64 as a scalar.
    let p = base();
    let blinding = Scalar::from_u64(5);
    let mut transcript = ProofTranscript::new(b"range");
    let proof = prove_range(&mut transcript, &p, 0, &blinding).expect("proof is made");
    let commitment = commit(&p, &Scalar::from_u64(1).neg(), &blinding).compress();
    assert!(!verify_range(&mut ProofTranscript::new(b"range"), &proof, &p, &commitment));
}
