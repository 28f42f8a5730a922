use danake::constants::{base, blinding_base};
use danake::statement::{prove, try_prove, verify, Relation, Statement, Term};
use danake::{ProofTranscript, Scalar};

fn dleq() -> Statement {
    Statement {
        label: "DLEQ",
        scalars: vec!["x"],
        points: vec!["A", "H", "G", "B"],
        relations: vec![
            Relation { lhs: 0, terms: vec![Term { scalar: 0, point: 3 }] },
            Relation { lhs: 2, terms: vec![Term { scalar: 0, point: 1 }] },
        ],
    }
}

#[test]
fn compact_proof_round_trip() {
    let statement = dleq();
    assert!(statement.is_well_formed());
    let x = Scalar::from_u64(89327492234);
    let b = base();
    let h = blinding_base();
    let a = b.mul(&x);
    let g = h.mul(&x);
    let mut prover_transcript = ProofTranscript::new(b"DLEQTest");
    let (proof, encodings) =
        prove(&mut prover_transcript, &statement, &vec![x], &vec![a, h, g, b]);
    assert_eq!(proof.responses.len(), 1);
    assert_eq!(encodings.len(), 4);
    assert_eq!(encodings[0], a.compress());
    assert_eq!(encodings[3].to_bytes(), b.compress().to_bytes());

    let mut verifier_transcript = ProofTranscript::new(b"DLEQTest");
    assert!(verify(&mut verifier_transcript, &statement, &encodings, &proof));
}

#[test]
fn compact_proof_is_bound_to_its_transcript() {
    let statement = dleq();
    let x = Scalar::from_u64(7);
    let b = base();
    let h = blinding_base();
    let mut prover_transcript = ProofTranscript::new(b"one context");
    let (proof, encodings) =
        prove(&mut prover_transcript, &statement, &vec![x], &vec![b.mul(&x), h, h.mul(&x), b]);
    let mut other = ProofTranscript::new(b"another context");
    assert!(!verify(&mut other, &statement, &encodings, &proof));
}

#[test]
fn compact_proof_of_a_false_statement_is_rejected() {
    let statement = dleq();
    let x = Scalar::from_u64(7);
    let y = Scalar::from_u64(8);
    let b = base();
    let h = blinding_base();
    let mut prover_transcript = ProofTranscript::new(b"DLEQTest");
    let (proof, encodings) =
        prove(&mut prover_transcript, &statement, &vec![x], &vec![b.mul(&x), h, h.mul(&y), b]);
    let mut verifier_transcript = ProofTranscript::new(b"DLEQTest");
    assert!(!verify(&mut verifier_transcript, &statement, &encodings, &proof));
}

#[test]
fn statement_that_cannot_be_checked_is_rejected() {
    let statement = dleq();
    let x = Scalar::from_u64(7);
    let b = base();
    let h = blinding_base();
    let mut transcript = ProofTranscript::new(b"DLEQTest");
    let (proof, encodings) =
        prove(&mut transcript, &statement, &vec![x], &vec![b.mul(&x), h, h.mul(&x), b]);
    // One point too few.
    let fewer = encodings[..3].to_vec();
    assert!(!verify(&mut ProofTranscript::new(b"DLEQTest"), &statement, &fewer, &proof));
    // A relation that speaks of a scalar that the statement does not name.
    let mut ill_formed = dleq();
    ill_formed.relations[1].terms[0].scalar = 1;
    assert!(!verify(&mut ProofTranscript::new(b"DLEQTest"), &ill_formed, &encodings, &proof));
    // The identity in place of a point, and bytes that are no point.
    let mut with_identity = encodings.clone();
    with_identity[1] = b.sub(&b).compress();
    assert!(!verify(&mut ProofTranscript::new(b"DLEQTest"), &statement, &with_identity, &proof));
    let mut with_garbage = encodings.clone();
    with_garbage[1] = danake::CompressedPoint::from_bytes([0xff; 32]);
    assert!(!verify(&mut ProofTranscript::new(b"DLEQTest"), &statement, &with_garbage, &proof));
    // One response too few or too many.
    let mut shorter = proof.clone();
    shorter.responses.pop();
    assert!(!verify(&mut ProofTranscript::new(b"DLEQTest"), &statement, &encodings, &shorter));
    let mut longer = proof.clone();
    longer.responses.push(x);
    assert!(!verify(&mut ProofTranscript::new(b"DLEQTest"), &statement, &encodings, &longer));
    assert!(verify(&mut ProofTranscript::new(b"DLEQTest"), &statement, &encodings, &proof));
}

#[test]
fn no_proof_is_made_of_a_statement_that_does_not_fit() {
    let statement = dleq();
    let x = Scalar::from_u64(7);
    let b = base();
    let h = blinding_base();
    let points = vec![b.mul(&x), h, h.mul(&x), b];
    let mut transcript = ProofTranscript::new(b"DLEQTest");
    assert!(try_prove(&mut transcript, &statement, &vec![x, x], &points).is_none());
    assert!(try_prove(&mut transcript, &statement, &vec![x], &points[..3].to_vec()).is_none());
    let mut ill_formed = dleq();
    ill_formed.relations[0].terms[0].point = 4;
    assert!(try_prove(&mut transcript, &ill_formed, &vec![x], &points).is_none());
    // The transcript was left alone: a proof made on it now is accepted on a fresh one.
    let (proof, encodings) =
        try_prove(&mut transcript, &statement, &vec![x], &points).expect("a proof is made");
    assert!(verify(&mut ProofTranscript::new(b"DLEQTest"), &statement, &encodings, &proof));
}

#[test]
fn ill_formed_statement_is_recognised() {
    let mut statement = dleq();
    statement.relations[1].terms[0].scalar = 1;
    assert!(!statement.is_well_formed());
    let mut statement = dleq();
    statement.relations[0].lhs = 4;
    assert!(!statement.is_well_formed());
}
