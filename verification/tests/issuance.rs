use danake::constants::{base, blinding_base};
use danake::range::commit;
use danake::wallet::issuance::{
    client_statement, issuance_verdict, issuer_statement, AwaitingResponse, Request, Response,
};
use danake::wallet::{Parameters, Secrets, Wallet};
use danake::{CompressedPoint, Epoch, EpochParameters, Error, Point, ProofTranscript, Scalar};

fn epoch() -> Epoch {
    EpochParameters::new(86400).epoch_at(1_700_000_000)
}

fn known_secret() -> Secrets {
    Secrets::from_scalars(
        epoch(),
        Scalar::from_u64(101),
        Scalar::from_u64(103),
        Scalar::from_u64(107),
        Scalar::from_u64(109),
    )
}

fn ask(balance: u64, params: &Parameters) -> (AwaitingResponse, Request) {
    Wallet::request_issuance(balance, params, ProofTranscript::new(b"issuance"), rand::thread_rng())
}

fn issue(secret: &Secrets, request: Request) -> Result<Response, Error> {
    secret.issue(request, ProofTranscript::new(b"issuance"), rand::thread_rng())
}

#[test]
fn issuance_round_trip_yields_requested_balance() {
    let secret = Secrets::new(epoch(), rand::thread_rng());
    let params = Parameters::from(&secret);
    for balance in [1u64, 1_000, u64::MAX] {
        let (state, request) = ask(balance, &params);
        let response = issue(&secret, request).expect("issuance should succeed");
        let wallet = state.verify_response(response).expect("response should verify");
        assert_eq!(wallet.balance(), balance);
        assert_eq!(wallet.epoch(), epoch());
    }
}

#[test]
fn issuance_of_an_empty_wallet_is_rejected_by_the_client() {
    // With the balance 0 the point w * P of the issuer's statement is the identity,
    // which no proof is accepted for.
    let secret = Secrets::new(epoch(), rand::thread_rng());
    let (state, request) = ask(0, &secret.parameters());
    let response = issue(&secret, request).expect("the request is answered");
    assert_eq!(state.verify_response(response).err(), Some(Error::ProofVerificationFailed));
}

#[test]
fn issuance_response_can_be_checked_before_it_is_taken() {
    let secret = Secrets::new(epoch(), rand::thread_rng());
    let (mut state, request) = ask(9, &secret.parameters());
    let response = issue(&secret, request).expect("issuance should succeed");
    let mut bad = response.clone();
    bad.P = CompressedPoint::from_bytes([0xff; 32]);
    assert_eq!(state.check_response(&bad), Err(Error::MalformedPoint));
    assert_eq!(state.check_response(&response), Ok(()));
    // The transcript has moved on: the same response is not accepted a second time.
    assert_eq!(state.check_response(&response), Err(Error::ProofVerificationFailed));
}

#[test]
fn issuance_statements_are_well_formed() {
    let client = client_statement();
    assert!(client.is_well_formed());
    assert_eq!(client.label, "wallet::issuance::client");
    assert_eq!(client.scalars, vec!["d", "n", "r"]);
    assert_eq!(client.points, vec!["D", "Enc_nB_0", "Enc_nB_1", "B"]);
    assert_eq!(client.relations.len(), 3);
    let issuer = issuer_statement();
    assert!(issuer.is_well_formed());
    assert_eq!(issuer.label, "wallet::issuance::issuer");
    assert_eq!(issuer.scalars.len(), 7);
    assert_eq!(issuer.points.len(), 14);
    assert_eq!(issuer.relations.len(), 8);
}

#[test]
fn issuance_request_encrypts_the_nullifier_under_the_ephemeral_key() {
    let params = known_secret().parameters();
    let n = Scalar::from_u64(11);
    let d = Scalar::from_u64(13);
    let r = Scalar::from_u64(17);
    let (_state, request) = Wallet::request_issuance_with(
        1_000,
        &params,
        ProofTranscript::new(b"issuance"),
        n,
        d,
        r,
    );
    let b = base();
    assert_eq!(request.w, 1_000);
    assert_eq!(request.epoch, epoch());
    assert_eq!(request.D, b.mul(&d).compress());
    assert_eq!(request.Enc_nB.0, b.mul(&r).compress());
    // n + r * d = 11 + 17 * 13 = 232
    assert_eq!(request.Enc_nB.1, b.mul(&Scalar::from_u64(232)).compress());
    assert_eq!(request.Enc_nB.1, b.mul(&n).add(&b.mul(&d).mul(&r)).compress());
    assert_eq!(request.proof.responses.len(), 3);
}

#[test]
fn issuance_response_is_the_mac_on_the_encrypted_nullifier() {
    let secret = known_secret();
    let params = secret.parameters();
    let (n, d) = (Scalar::from_u64(11), Scalar::from_u64(13));
    let (state, request) = Wallet::request_issuance_with(
        1_000,
        &params,
        ProofTranscript::new(b"issuance"),
        n,
        d,
        Scalar::from_u64(17),
    );
    let (b, r) = (Scalar::from_u64(19), Scalar::from_u64(23));
    let mut transcript = ProofTranscript::new(b"issuance");
    secret.check_issuance(&request, &mut transcript).expect("request is accepted");
    let response = secret
        .respond_to_issuance(&request, &mut transcript, &b, &r)
        .expect("points decode");

    let base = base();
    let enc_0 = request.Enc_nB.0.decompress().unwrap();
    let enc_1 = request.Enc_nB.1.decompress().unwrap();
    let big_d = request.D.decompress().unwrap();
    let p = base.mul(&b);
    // t_2 = b * x_2 = 19 * 107
    let t_2 = Scalar::from_u64(19 * 107);
    // x_0 + x_1 * w = 101 + 103 * 1000
    let x_0_x_1_w = Scalar::from_u64(101 + 103 * 1000);
    assert_eq!(response.P, p.compress());
    assert_eq!(response.T_2, params.X_2().mul(&b).compress());
    assert_eq!(response.Enc_Q.0, base.mul(&r).add(&enc_0.mul(&t_2)).compress());
    assert_eq!(
        response.Enc_Q.1,
        p.mul(&x_0_x_1_w).add(&enc_1.mul(&t_2)).add(&big_d.mul(&r)).compress()
    );
    assert_eq!(response.proof.responses.len(), 7);

    // The client decrypts the tag (P, Q) with Q = (x_0 + x_1 * w + x_2 * n) * P.
    let wallet = state.verify_response(response).expect("response should verify");
    assert_eq!(wallet.balance(), 1_000);
    assert_eq!(wallet.nullifier(), n);
    assert_eq!(wallet.epoch(), epoch());
    assert_eq!(wallet.tag().P, p);
    assert_eq!(wallet.tag().Q, p.mul(&Scalar::from_u64(101 + 103 * 1000 + 107 * 11)));
}

#[test]
fn issuer_parameters_commit_to_the_secret_scalars() {
    let params = known_secret().parameters();
    let h = blinding_base();
    assert_eq!(params.epoch(), epoch());
    assert_eq!(params.X_0(), commit(&base(), &Scalar::from_u64(101), &Scalar::from_u64(109)));
    assert_eq!(
        params.X_0(),
        Point::combine2(&Scalar::from_u64(101), &base(), &Scalar::from_u64(109), &h)
    );
    assert_eq!(params.X_1(), h.mul(&Scalar::from_u64(103)));
    assert_eq!(params.X_2(), h.mul(&Scalar::from_u64(107)));
    assert_eq!(Parameters::from(&known_secret()), params);
}

#[test]
fn fresh_issuer_keys_differ_and_carry_their_epoch() {
    let a = Secrets::new(epoch(), rand::thread_rng());
    let b = Secrets::new(epoch(), rand::thread_rng());
    assert_ne!(a.parameters(), b.parameters());
    assert_eq!(a.parameters().epoch(), epoch());
    assert_eq!(Parameters::from(&a), a.parameters());
}

#[test]
fn issuance_rejects_a_request_for_another_epoch() {
    let secret = Secrets::new(epoch(), rand::thread_rng());
    let next = EpochParameters::new(86400).epoch_at(1_700_086_400);
    let later = Secrets::new(next, rand::thread_rng());
    let (_state, request) = ask(1_000, &later.parameters());
    assert_eq!(issue(&secret, request).err(), Some(Error::EpochMismatch));
    // The same index with another epoch length is another epoch.
    let (_state, mut request) = ask(1_000, &secret.parameters());
    request.epoch = Epoch::new(epoch().index(), EpochParameters::new(86401));
    assert_eq!(issue(&secret, request).err(), Some(Error::EpochMismatch));
}

#[test]
fn issuance_rejects_another_transcript() {
    let secret = Secrets::new(epoch(), rand::thread_rng());
    let (_state, request) = ask(5, &secret.parameters());
    let result =
        secret.issue(request, ProofTranscript::new(b"another context"), rand::thread_rng());
    assert_eq!(result.err(), Some(Error::ProofVerificationFailed));
}

#[test]
fn issuance_rejects_a_request_that_was_tampered_with() {
    let secret = Secrets::new(epoch(), rand::thread_rng());
    let params = secret.parameters();
    let (_state, mut tampered) = ask(5, &params);
    tampered.D = base().compress();
    assert_eq!(issue(&secret, tampered).err(), Some(Error::ProofVerificationFailed));
    let (_state, mut tampered) = ask(5, &params);
    tampered.Enc_nB.1 = CompressedPoint::from_bytes([0xff; 32]);
    assert_eq!(issue(&secret, tampered).err(), Some(Error::ProofVerificationFailed));
    let (_state, mut tampered) = ask(5, &params);
    tampered.proof.responses.pop();
    assert_eq!(issue(&secret, tampered).err(), Some(Error::ProofVerificationFailed));
    // The balance is not part of what the client proves: the issuer answers for the
    // balance that the request names, and the client then rejects the answer.
    let (state, mut tampered) = ask(5, &params);
    tampered.w = 6;
    let response = issue(&secret, tampered).expect("the request is answered");
    assert_eq!(state.verify_response(response).err(), Some(Error::ProofVerificationFailed));
}

#[test]
fn issuer_does_not_answer_points_that_do_not_decode() {
    let secret = known_secret();
    let (_state, mut request) = ask(5, &secret.parameters());
    request.D = CompressedPoint::from_bytes([0xff; 32]);
    let mut transcript = ProofTranscript::new(b"issuance");
    let result = secret.respond_to_issuance(
        &request,
        &mut transcript,
        &Scalar::from_u64(1),
        &Scalar::from_u64(2),
    );
    assert_eq!(result.err(), Some(Error::MalformedPoint));
}

#[test]
fn client_rejects_a_response_whose_point_does_not_decode() {
    let secret = Secrets::new(epoch(), rand::thread_rng());
    let (state, request) = ask(5, &secret.parameters());
    let mut response = issue(&secret, request).expect("issuance should succeed");
    response.P = CompressedPoint::from_bytes([0xff; 32]);
    assert_eq!(state.verify_response(response).err(), Some(Error::MalformedPoint));
}

#[test]
fn client_rejects_a_response_that_was_tampered_with_or_made_with_another_key() {
    let secret = Secrets::new(epoch(), rand::thread_rng());
    let other = Secrets::new(epoch(), rand::thread_rng());
    let params = secret.parameters();

    let (state, request) = ask(5, &params);
    let mut response = issue(&secret, request).expect("issuance should succeed");
    response.Enc_Q.0 = response.Enc_Q.1;
    assert_eq!(state.verify_response(response).err(), Some(Error::ProofVerificationFailed));

    let (state, request) = ask(5, &params);
    let response = issue(&other, request).expect("issuance should succeed");
    assert_eq!(state.verify_response(response).err(), Some(Error::ProofVerificationFailed));
}

#[test]
fn issuance_verdict_names_the_first_test_that_failed() {
    assert_eq!(issuance_verdict(true, true), Ok(()));
    assert_eq!(issuance_verdict(true, false), Err(Error::ProofVerificationFailed));
    assert_eq!(issuance_verdict(false, true), Err(Error::EpochMismatch));
    assert_eq!(issuance_verdict(false, false), Err(Error::EpochMismatch));
}

#[test]
fn error_messages() {
    assert_eq!(Error::EpochMismatch.message(), "epoch mismatch");
    assert_eq!(Error::MalformedPoint.message(), "malformed point");
    assert_eq!(Error::ProofVerificationFailed.message(), "proof verification failed");
    assert_eq!(Error::RangeProofFailed.message(), "range proof failed");
    assert_eq!(Error::NullifierReused.message(), "nullifier reused");
}
