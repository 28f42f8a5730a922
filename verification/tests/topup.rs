use danake::constants::{base, blinding_base};
use danake::range::commit;
use danake::wallet::topup::{
    client_statement, issuer_statement, topup_verdict, AwaitingResponse, Request, Response,
};
use danake::wallet::{Randomness, Secrets, Wallet};
use danake::{
    CompressedPoint, Epoch, EpochParameters, Error, NullifierSet, ProofTranscript, Scalar,
};

fn epoch() -> Epoch {
    EpochParameters::new(86400).epoch_at(1_700_000_000)
}

fn known_secret() -> Secrets {
    Secrets::from_scalars(
        epoch(),
        Scalar::from_u64(101),
        Scalar::from_u64(103),
        Scalar::from_u64(107),
        Scalar::from_u64(109),
    )
}

fn wallet(secret: &Secrets, balance: u64) -> Wallet {
    let (state, request) = Wallet::request_issuance(
        balance,
        &secret.parameters(),
        ProofTranscript::new(b"issuance"),
        rand::thread_rng(),
    );
    let response = secret
        .issue(request, ProofTranscript::new(b"issuance"), rand::thread_rng())
        .expect("issuance should succeed");
    state.verify_response(response).expect("response should verify")
}

fn ask(secret: &Secrets, balance: u64, c: u64) -> (AwaitingResponse, Request) {
    wallet(secret, balance)
        .request_topup(c, &secret.parameters(), ProofTranscript::new(b"topup"), rand::thread_rng())
        .expect("request is made")
}

fn answer(secret: &Secrets, request: Request, fresh: bool) -> Result<Response, Error> {
    secret.topup(request, ProofTranscript::new(b"topup"), rand::thread_rng(), |_| fresh)
}

fn drawn() -> Randomness {
    Randomness {
        t: Scalar::from_u64(3),
        w_blinding: Scalar::from_u64(5),
        r_Q: Scalar::from_u64(7),
        n_prime: Scalar::from_u64(11),
        d: Scalar::from_u64(13),
        r_w: Scalar::from_u64(17),
        r_n: Scalar::from_u64(19),
    }
}

#[test]
fn topup_adds_the_amount_to_the_balance() {
    let secret = Secrets::new(epoch(), rand::thread_rng());
    for (balance, c) in [(1_000u64, 2_000u64), (1, u64::MAX - 1), (u64::MAX - 1, 1), (7, 7)] {
        let old = wallet(&secret, balance);
        let old_nullifier = old.nullifier();
        let (state, request) = old
            .request_topup(
                c,
                &secret.parameters(),
                ProofTranscript::new(b"topup"),
                rand::thread_rng(),
            )
            .expect("request is made");
        assert_eq!(request.c, c);
        assert_eq!(request.n, old_nullifier);
        let response = answer(&secret, request, true).expect("topup should succeed");
        let new = state.verify_response(response).expect("response should verify");
        assert_eq!(new.balance(), balance + c);
        assert_eq!(new.epoch(), epoch());
        assert_ne!(new.nullifier(), old_nullifier);
    }
}

#[test]
fn topup_by_zero_is_a_topup_like_any_other() {
    let secret = Secrets::new(epoch(), rand::thread_rng());
    let (state, request) = ask(&secret, 1_000, 0);
    let old_nullifier = request.n;
    let response = answer(&secret, request, true).expect("topup should succeed");
    let new = state.verify_response(response).expect("response should verify");
    assert_eq!(new.balance(), 1_000);
    assert_ne!(new.nullifier(), old_nullifier);
}

#[test]
fn topup_that_overflows_the_balance_is_refused_by_the_client() {
    let secret = Secrets::new(epoch(), rand::thread_rng());
    let cases = [(u64::MAX, 1u64), (1, u64::MAX), (u64::MAX, u64::MAX), (1 << 63, 1 << 63)];
    for (balance, c) in cases {
        let result = wallet(&secret, balance).request_topup(
            c,
            &secret.parameters(),
            ProofTranscript::new(b"topup"),
            rand::thread_rng(),
        );
        assert_eq!(result.err(), Some(Error::RangeProofFailed));
    }
}

#[test]
fn topup_is_refused_by_the_client_for_parameters_of_another_epoch() {
    let secret = Secrets::new(epoch(), rand::thread_rng());
    let next = EpochParameters::new(86400).epoch_at(1_700_086_400);
    let later = Secrets::new(next, rand::thread_rng());
    let result = wallet(&secret, 5).request_topup(
        1,
        &later.parameters(),
        ProofTranscript::new(b"topup"),
        rand::thread_rng(),
    );
    assert_eq!(result.err(), Some(Error::EpochMismatch));
    // The epoch is looked at before the sum is.
    let result = wallet(&secret, u64::MAX).request_topup(
        1,
        &later.parameters(),
        ProofTranscript::new(b"topup"),
        rand::thread_rng(),
    );
    assert_eq!(result.err(), Some(Error::EpochMismatch));
}

#[test]
fn topup_statements_are_well_formed() {
    let client = client_statement();
    assert!(client.is_well_formed());
    assert_eq!(client.label, "wallet::topup::client");
    assert_eq!((client.scalars.len(), client.points.len(), client.relations.len()), (8, 12, 8));
    let issuer = issuer_statement();
    assert!(issuer.is_well_formed());
    assert_eq!(issuer.label, "wallet::topup::issuer");
    assert_eq!((issuer.scalars.len(), issuer.points.len(), issuer.relations.len()), (8, 17, 10));
}

#[test]
fn topup_request_commits_to_the_balance_and_encrypts_the_new_one() {
    let secret = known_secret();
    let old = wallet(&secret, 1_000);
    let (tag, n) = (old.tag(), old.nullifier());
    let drawn = drawn();
    let (_state, request) = old
        .request_topup_with(2_000, &secret.parameters(), ProofTranscript::new(b"topup"), &drawn)
        .expect("request is made");
    let b = base();
    let p = tag.P.mul(&drawn.t);
    let q = tag.Q.mul(&drawn.t);
    assert_eq!(request.epoch, epoch());
    assert_eq!(request.c, 2_000);
    assert_eq!(request.n, n);
    assert_eq!(request.P, p.compress());
    assert_eq!(request.Com_w, commit(&p, &Scalar::from_u64(1_000), &drawn.w_blinding).compress());
    assert_eq!(
        request.Com_w,
        p.mul(&Scalar::from_u64(1_000)).add(&blinding_base().mul(&Scalar::from_u64(5))).compress()
    );
    assert_eq!(request.C_Q, q.add(&b.mul(&Scalar::from_u64(7))).compress());
    assert_eq!(request.D, b.mul(&Scalar::from_u64(13)).compress());
    assert_eq!(request.Enc_w_prime_B.0, b.mul(&Scalar::from_u64(17)).compress());
    // w' + r_w * d = 3000 + 17 * 13
    assert_eq!(request.Enc_w_prime_B.1, b.mul(&Scalar::from_u64(3_000 + 17 * 13)).compress());
    assert_eq!(request.Enc_n_prime_B.0, b.mul(&Scalar::from_u64(19)).compress());
    // n' + r_n * d = 11 + 19 * 13
    assert_eq!(request.Enc_n_prime_B.1, b.mul(&Scalar::from_u64(11 + 19 * 13)).compress());
    assert_eq!(request.proof.responses.len(), 8);
}

#[test]
fn topup_response_is_the_mac_on_the_encrypted_balance_and_nullifier() {
    let secret = known_secret();
    let params = secret.parameters();
    let drawn = drawn();
    let (state, request) = wallet(&secret, 1_000)
        .request_topup_with(2_000, &params, ProofTranscript::new(b"topup"), &drawn)
        .expect("request is made");
    let mut transcript = ProofTranscript::new(b"topup");
    secret.check_topup(&request, &mut transcript, |_| true).expect("request is accepted");
    let (b, r) = (Scalar::from_u64(23), Scalar::from_u64(29));
    let response =
        secret.respond_to_topup(&request, &mut transcript, &b, &r).expect("points decode");

    let base = base();
    let p = base.mul(&b);
    let t_1 = Scalar::from_u64(23 * 103);
    let t_2 = Scalar::from_u64(23 * 107);
    let enc_w = (
        request.Enc_w_prime_B.0.decompress().unwrap(),
        request.Enc_w_prime_B.1.decompress().unwrap(),
    );
    let enc_n = (
        request.Enc_n_prime_B.0.decompress().unwrap(),
        request.Enc_n_prime_B.1.decompress().unwrap(),
    );
    let big_d = request.D.decompress().unwrap();
    assert_eq!(response.P, p.compress());
    assert_eq!(response.T_1, params.X_1().mul(&b).compress());
    assert_eq!(response.T_2, params.X_2().mul(&b).compress());
    assert_eq!(
        response.Enc_Q.0,
        base.mul(&r).add(&enc_w.0.mul(&t_1)).add(&enc_n.0.mul(&t_2)).compress()
    );
    assert_eq!(
        response.Enc_Q.1,
        big_d
            .mul(&r)
            .add(&p.mul(&Scalar::from_u64(101)))
            .add(&enc_w.1.mul(&t_1))
            .add(&enc_n.1.mul(&t_2))
            .compress()
    );

    // The client decrypts the tag (P, Q) with Q = (x_0 + x_1 * w' + x_2 * n') * P.
    let new = state.verify_response(response).expect("response should verify");
    assert_eq!(new.balance(), 3_000);
    assert_eq!(new.nullifier(), drawn.n_prime);
    assert_eq!(new.tag().P, p);
    assert_eq!(new.tag().Q, p.mul(&Scalar::from_u64(101 + 103 * 3_000 + 107 * 11)));
}

#[test]
fn topup_rejects_a_request_for_another_epoch_without_asking_the_oracle() {
    let secret = Secrets::new(epoch(), rand::thread_rng());
    let next = EpochParameters::new(86400).epoch_at(1_700_086_400);
    let later = Secrets::new(next, rand::thread_rng());
    let (_state, request) = ask(&secret, 5, 1);
    let mut seen = NullifierSet::new();
    let result = later.topup(
        request.clone(),
        ProofTranscript::new(b"topup"),
        rand::thread_rng(),
        |n| seen.check_and_mark(n),
    );
    assert_eq!(result.err(), Some(Error::EpochMismatch));
    assert!(!seen.contains(&request.n.to_bytes()));
}

#[test]
fn topup_rejects_a_nullifier_that_is_not_fresh() {
    let secret = Secrets::new(epoch(), rand::thread_rng());
    let (_state, request) = ask(&secret, 5, 1);
    assert_eq!(answer(&secret, request, false).err(), Some(Error::NullifierReused));
}

#[test]
fn topup_rejects_the_second_presentation_of_a_nullifier() {
    let secret = Secrets::new(epoch(), rand::thread_rng());
    let (_state, request) = ask(&secret, 5, 1);
    let mut seen = NullifierSet::new();
    let first = secret.topup(
        request.clone(),
        ProofTranscript::new(b"topup"),
        rand::thread_rng(),
        |n| seen.check_and_mark(n),
    );
    assert!(first.is_ok());
    assert!(seen.contains(&request.n.to_bytes()));
    let second = secret.topup(
        request,
        ProofTranscript::new(b"topup"),
        rand::thread_rng(),
        |n| seen.check_and_mark(n),
    );
    assert_eq!(second.err(), Some(Error::NullifierReused));
    // Another wallet's request is answered.
    let (_state, other) = ask(&secret, 5, 1);
    let third = secret.topup(
        other,
        ProofTranscript::new(b"topup"),
        rand::thread_rng(),
        |n| seen.check_and_mark(n),
    );
    assert!(third.is_ok());
}

#[test]
fn topup_marks_the_nullifier_before_it_checks_the_proofs() {
    let secret = Secrets::new(epoch(), rand::thread_rng());
    let (_state, mut request) = ask(&secret, 5, 1);
    request.Com_w = CompressedPoint::from_bytes([0xff; 32]);
    let mut seen = NullifierSet::new();
    let result = secret.topup(
        request.clone(),
        ProofTranscript::new(b"topup"),
        rand::thread_rng(),
        |n| seen.check_and_mark(n),
    );
    assert_eq!(result.err(), Some(Error::MalformedPoint));
    assert!(seen.contains(&request.n.to_bytes()));
}

#[test]
fn topup_rejects_presented_points_that_do_not_decode() {
    let secret = Secrets::new(epoch(), rand::thread_rng());
    let bad = CompressedPoint::from_bytes([0xff; 32]);
    let (_state, mut request) = ask(&secret, 5, 1);
    request.Com_w = bad;
    assert_eq!(answer(&secret, request, true).err(), Some(Error::MalformedPoint));
    let (_state, mut request) = ask(&secret, 5, 1);
    request.C_Q = bad;
    assert_eq!(answer(&secret, request, true).err(), Some(Error::MalformedPoint));
    let (_state, mut request) = ask(&secret, 5, 1);
    request.P = bad;
    assert_eq!(answer(&secret, request, true).err(), Some(Error::MalformedPoint));
    let (_state, mut request) = ask(&secret, 5, 1);
    request.D = bad;
    assert_eq!(answer(&secret, request, true).err(), Some(Error::MalformedPoint));
    // A point that the issuer only passes on to the proof fails the proof.
    let (_state, mut request) = ask(&secret, 5, 1);
    request.Enc_w_prime_B.0 = bad;
    assert_eq!(answer(&secret, request, true).err(), Some(Error::ProofVerificationFailed));
}

#[test]
fn topup_rejects_a_request_whose_proof_does_not_fit() {
    let secret = Secrets::new(epoch(), rand::thread_rng());
    // Another amount than the one that was asked for.
    let (_state, mut request) = ask(&secret, 5, 1);
    request.c = 2;
    assert_eq!(answer(&secret, request, true).err(), Some(Error::ProofVerificationFailed));
    // Another nullifier than the wallet's.
    let (_state, mut request) = ask(&secret, 5, 1);
    request.n = Scalar::from_u64(1);
    assert_eq!(answer(&secret, request, true).err(), Some(Error::ProofVerificationFailed));
    // A wallet of another issuer.
    let other = Secrets::new(epoch(), rand::thread_rng());
    let (_state, request) = wallet(&other, 5)
        .request_topup(1, &secret.parameters(), ProofTranscript::new(b"topup"), rand::thread_rng())
        .expect("request is made");
    assert_eq!(answer(&secret, request, true).err(), Some(Error::ProofVerificationFailed));
    // Another transcript.
    let (_state, request) = ask(&secret, 5, 1);
    let result =
        secret.topup(request, ProofTranscript::new(b"other"), rand::thread_rng(), |_| true);
    assert_eq!(result.err(), Some(Error::ProofVerificationFailed));
}

#[test]
fn topup_rejects_a_range_proof_that_does_not_fit() {
    let secret = Secrets::new(epoch(), rand::thread_rng());
    let (_state, mut request) = ask(&secret, 5, 1);
    let (_other_state, other) = ask(&secret, 5, 1);
    request.range_proof = other.range_proof;
    assert_eq!(answer(&secret, request, true).err(), Some(Error::RangeProofFailed));
    let (_state, mut request) = ask(&secret, 5, 1);
    request.range_proof.bytes.truncate(64);
    assert_eq!(answer(&secret, request, true).err(), Some(Error::RangeProofFailed));
}

#[test]
fn topup_issuer_does_not_answer_points_that_do_not_decode() {
    let secret = known_secret();
    let (_state, mut request) = ask(&secret, 5, 1);
    request.Enc_n_prime_B.1 = CompressedPoint::from_bytes([0xff; 32]);
    let mut transcript = ProofTranscript::new(b"topup");
    let result = secret.respond_to_topup(
        &request,
        &mut transcript,
        &Scalar::from_u64(1),
        &Scalar::from_u64(2),
    );
    assert_eq!(result.err(), Some(Error::MalformedPoint));
}

#[test]
fn topup_client_rejects_a_bad_response() {
    let secret = Secrets::new(epoch(), rand::thread_rng());
    let (state, request) = ask(&secret, 5, 1);
    let mut response = answer(&secret, request, true).expect("topup should succeed");
    response.P = CompressedPoint::from_bytes([0xff; 32]);
    assert_eq!(state.verify_response(response).err(), Some(Error::MalformedPoint));

    let (state, request) = ask(&secret, 5, 1);
    let mut response = answer(&secret, request, true).expect("topup should succeed");
    response.T_1 = response.T_2;
    assert_eq!(state.verify_response(response).err(), Some(Error::ProofVerificationFailed));

    // A response to another request.
    let (state, _request) = ask(&secret, 5, 1);
    let (_other_state, other) = ask(&secret, 5, 1);
    let response = answer(&secret, other, true).expect("topup should succeed");
    assert_eq!(state.verify_response(response).err(), Some(Error::ProofVerificationFailed));
}

#[test]
fn topup_verdict_names_the_first_test_that_failed() {
    assert_eq!(topup_verdict(true, true, true, true, true), Ok(()));
    assert_eq!(topup_verdict(true, true, true, true, false), Err(Error::RangeProofFailed));
    assert_eq!(topup_verdict(true, true, true, false, true), Err(Error::ProofVerificationFailed));
    assert_eq!(topup_verdict(true, true, true, false, false), Err(Error::ProofVerificationFailed));
    assert_eq!(topup_verdict(true, true, false, true, true), Err(Error::MalformedPoint));
    assert_eq!(topup_verdict(true, true, false, false, false), Err(Error::MalformedPoint));
    assert_eq!(topup_verdict(true, false, true, true, true), Err(Error::NullifierReused));
    assert_eq!(topup_verdict(true, false, false, false, false), Err(Error::NullifierReused));
    assert_eq!(topup_verdict(false, true, true, true, true), Err(Error::EpochMismatch));
    assert_eq!(topup_verdict(false, false, false, false, false), Err(Error::EpochMismatch));
}

#[test]
fn nullifier_set_marks_and_remembers() {
    let mut seen = NullifierSet::new();
    let a = [1u8; 32];
    let mut b = [1u8; 32];
    b[31] = 2;
    assert!(!seen.contains(&a));
    assert!(seen.check_and_mark(a));
    assert!(seen.contains(&a));
    assert!(!seen.contains(&b));
    assert!(!seen.check_and_mark(a));
    assert!(seen.check_and_mark(b));
    assert!(!seen.check_and_mark(b));
    assert!(!seen.check_and_mark(a));
    assert!(seen.contains(&a) && seen.contains(&b));
    assert!(!seen.contains(&[0u8; 32]));
}
