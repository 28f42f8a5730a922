use danake::constants::{base, blinding_base};
use danake::wallet::rollover::{
    client_statement, epoch_state_at, issuer_statement, rollover_epochs_accepted,
    rollover_verdict, AwaitingResponse, Request, Response,
};
use danake::wallet::{Randomness, Secrets, Wallet};
use danake::{
    CompressedPoint, Epoch, EpochParameters, EpochState, Error, NullifierSet, ProofTranscript,
    Scalar,
};

const DAY: i64 = 86400;
const NOW: i64 = 1_700_000_000;

fn epoch_at(time: i64) -> Epoch {
    EpochParameters::new(86400).epoch_at(time)
}

fn secret(time: i64) -> Secrets {
    Secrets::new(epoch_at(time), rand::thread_rng())
}

fn wallet(secret: &Secrets, balance: u64) -> Wallet {
    let (state, request) = Wallet::request_issuance(
        balance,
        &secret.parameters(),
        ProofTranscript::new(b"issuance"),
        rand::thread_rng(),
    );
    let response = secret
        .issue(request, ProofTranscript::new(b"issuance"), rand::thread_rng())
        .expect("issuance should succeed");
    state.verify_response(response).expect("response should verify")
}

fn ask(old: &Secrets, new: &Secrets, balance: u64) -> (AwaitingResponse, Request) {
    wallet(old, balance)
        .request_rollover(
            &old.parameters(),
            &new.parameters(),
            ProofTranscript::new(b"rollover"),
            rand::thread_rng(),
        )
        .expect("request is made")
}

fn answer(
    request: &Request,
    now: i64,
    old: &Secrets,
    new: &Secrets,
    fresh: bool,
) -> Result<Response, Error> {
    let transcript = ProofTranscript::new(b"rollover");
    request.rollover_at(now, old, new, transcript, rand::thread_rng(), |_| fresh)
}

#[test]
fn rollover_keeps_the_balance_and_moves_to_the_new_epoch() {
    let old = secret(NOW);
    let new = secret(NOW + DAY);
    for balance in [1u64, 3_000, u64::MAX] {
        let before = wallet(&old, balance);
        let old_nullifier = before.nullifier();
        let (state, request) = before
            .request_rollover(
                &old.parameters(),
                &new.parameters(),
                ProofTranscript::new(b"rollover"),
                rand::thread_rng(),
            )
            .expect("request is made");
        assert_eq!(request.n, old_nullifier);
        assert_eq!(request.epoch, epoch_at(NOW));
        assert_eq!(request.new_epoch, epoch_at(NOW + DAY));
        let response =
            answer(&request, NOW + DAY, &old, &new, true).expect("rollover should succeed");
        let after = state.verify_response(response).expect("response should verify");
        assert_eq!(after.balance(), balance);
        assert_eq!(after.epoch(), epoch_at(NOW + DAY));
        assert_eq!(after.epoch().index(), epoch_at(NOW).index() + 1);
        assert_ne!(after.nullifier(), old_nullifier);
    }
}

#[test]
fn rolled_over_wallet_is_a_wallet_of_the_new_issuer() {
    let old = secret(NOW);
    let new = secret(NOW + DAY);
    let (state, request) = ask(&old, &new, 3_000);
    let response = answer(&request, NOW + DAY, &old, &new, true).expect("rollover should succeed");
    let rolled = state.verify_response(response).expect("response should verify");
    // It can be topped up under the new key, and not under the old one.
    let (state, request) = rolled
        .request_topup(1, &new.parameters(), ProofTranscript::new(b"topup"), rand::thread_rng())
        .expect("request is made");
    let response = new
        .topup(request, ProofTranscript::new(b"topup"), rand::thread_rng(), |_| true)
        .expect("topup should succeed");
    let topped = state.verify_response(response).expect("response should verify");
    assert_eq!(topped.balance(), 3_001);
    assert_eq!(
        topped
            .request_topup(1, &old.parameters(), ProofTranscript::new(b"topup"), rand::thread_rng())
            .err(),
        Some(Error::EpochMismatch)
    );
}

#[test]
fn rollover_statements_are_well_formed() {
    let client = client_statement();
    assert!(client.is_well_formed());
    assert_eq!(client.label, "WalletRollover_Client");
    assert_eq!((client.scalars.len(), client.points.len(), client.relations.len()), (8, 11, 6));
    let issuer = issuer_statement();
    assert!(issuer.is_well_formed());
    assert_eq!(issuer.label, "WalletRollover_Issuer");
    assert_eq!((issuer.scalars.len(), issuer.points.len(), issuer.relations.len()), (12, 20, 13));
}

#[test]
fn rollover_request_and_response_with_known_scalars() {
    let old = Secrets::from_scalars(
        epoch_at(NOW),
        Scalar::from_u64(101),
        Scalar::from_u64(103),
        Scalar::from_u64(107),
        Scalar::from_u64(109),
    );
    let new = Secrets::from_scalars(
        epoch_at(NOW + DAY),
        Scalar::from_u64(201),
        Scalar::from_u64(203),
        Scalar::from_u64(207),
        Scalar::from_u64(209),
    );
    let drawn = Randomness {
        t: Scalar::from_u64(3),
        w_blinding: Scalar::from_u64(5),
        r_Q: Scalar::from_u64(7),
        n_prime: Scalar::from_u64(11),
        d: Scalar::from_u64(13),
        r_w: Scalar::from_u64(17),
        r_n: Scalar::from_u64(19),
    };
    let before = wallet(&old, 3_000);
    let (tag, n) = (before.tag(), before.nullifier());
    let (state, request) = before.request_rollover_with(
        &old.parameters(),
        &new.parameters(),
        ProofTranscript::new(b"rollover"),
        &drawn,
    );
    let b = base();
    let p = tag.P.mul(&drawn.t);
    assert_eq!(request.n, n);
    assert_eq!(request.P, p.compress());
    assert_eq!(
        request.Com_w,
        p.mul(&Scalar::from_u64(3_000)).add(&blinding_base().mul(&Scalar::from_u64(5))).compress()
    );
    assert_eq!(request.C_Q, tag.Q.mul(&drawn.t).add(&b.mul(&Scalar::from_u64(7))).compress());
    assert_eq!(request.D, b.mul(&Scalar::from_u64(13)).compress());
    assert_eq!(request.Enc_w_B.0, b.mul(&Scalar::from_u64(17)).compress());
    assert_eq!(request.Enc_w_B.1, b.mul(&Scalar::from_u64(3_000 + 17 * 13)).compress());
    assert_eq!(request.Enc_n_prime_B.0, b.mul(&Scalar::from_u64(19)).compress());
    assert_eq!(request.Enc_n_prime_B.1, b.mul(&Scalar::from_u64(11 + 19 * 13)).compress());

    let mut transcript = ProofTranscript::new(b"rollover");
    request.check_rollover(NOW, &old, &mut transcript, |_| true).expect("request is accepted");
    let (s, r) = (Scalar::from_u64(23), Scalar::from_u64(29));
    let response = request
        .respond_to_rollover(&old, &new, &mut transcript, &s, &r)
        .expect("points decode");
    let new_p = b.mul(&s);
    assert_eq!(response.P, new_p.compress());
    assert_eq!(response.T_1, new.parameters().X_1().mul(&s).compress());
    assert_eq!(response.T_2, new.parameters().X_2().mul(&s).compress());

    // The client decrypts the tag (P, Q) with Q = (x'_0 + x'_1 * w + x'_2 * n') * P.
    let after = state.verify_response(response).expect("response should verify");
    assert_eq!(after.balance(), 3_000);
    assert_eq!(after.nullifier(), drawn.n_prime);
    assert_eq!(after.tag().P, new_p);
    assert_eq!(after.tag().Q, new_p.mul(&Scalar::from_u64(201 + 203 * 3_000 + 207 * 11)));
}

#[test]
fn rollover_is_accepted_while_both_epochs_are_in_use() {
    let old = secret(NOW);
    let new = secret(NOW + DAY);
    // The old epoch may be primary, active or in rollover; the new one primary or active.
    for now in [NOW, NOW + DAY, NOW + 2 * DAY] {
        let (_state, request) = ask(&old, &new, 5);
        assert!(answer(&request, now, &old, &new, true).is_ok());
    }
    for now in [NOW - DAY, NOW - 2 * DAY, NOW + 3 * DAY, NOW + 4 * DAY, 0, i64::MAX, i64::MIN] {
        let (_state, request) = ask(&old, &new, 5);
        assert_eq!(answer(&request, now, &old, &new, true).err(), Some(Error::EpochMismatch));
    }
    // Into the same epoch, as long as it is primary or active.
    let same = secret(NOW);
    let cases = [(NOW - DAY, true), (NOW, true), (NOW + DAY, true), (NOW + 2 * DAY, false)];
    for (now, accepted) in cases {
        let (_state, request) = ask(&old, &same, 5);
        assert_eq!(answer(&request, now, &old, &same, true).is_ok(), accepted);
    }
}

#[test]
fn rollover_rejects_epochs_without_asking_the_oracle() {
    let old = secret(NOW);
    let new = secret(NOW + DAY);
    let (_state, request) = ask(&old, &new, 5);
    let mut seen = NullifierSet::new();
    let result = request.rollover_at(
        NOW + 3 * DAY,
        &old,
        &new,
        ProofTranscript::new(b"rollover"),
        rand::thread_rng(),
        |n| seen.check_and_mark(n),
    );
    assert_eq!(result.err(), Some(Error::EpochMismatch));
    assert!(!seen.contains(&request.n.to_bytes()));
}

#[test]
fn rollover_rejects_epochs_of_no_length() {
    let old = secret(NOW);
    let new = secret(NOW + DAY);
    let (_state, mut request) = ask(&old, &new, 5);
    request.epoch = Epoch::new(0, EpochParameters::new(0));
    assert_eq!(answer(&request, NOW, &old, &new, true).err(), Some(Error::EpochMismatch));
    let (_state, mut request) = ask(&old, &new, 5);
    request.new_epoch = Epoch::new(request.new_epoch.index(), EpochParameters::new(0));
    assert_eq!(answer(&request, NOW, &old, &new, true).err(), Some(Error::EpochMismatch));
    assert_eq!(epoch_state_at(&Epoch::new(0, EpochParameters::new(0)), 0), EpochState::Invalid);
    assert_eq!(epoch_state_at(&epoch_at(NOW), NOW), EpochState::Primary);
    assert_eq!(epoch_state_at(&epoch_at(NOW), NOW + 2 * DAY), EpochState::Rollover);
}

#[test]
fn rollover_rejects_the_second_presentation_of_a_nullifier() {
    let old = secret(NOW);
    let new = secret(NOW + DAY);
    let (_state, request) = ask(&old, &new, 5);
    assert_eq!(answer(&request, NOW, &old, &new, false).err(), Some(Error::NullifierReused));
    let mut seen = NullifierSet::new();
    let first = request.rollover_at(
        NOW,
        &old,
        &new,
        ProofTranscript::new(b"rollover"),
        rand::thread_rng(),
        |n| seen.check_and_mark(n),
    );
    assert!(first.is_ok());
    let second = request.rollover_at(
        NOW,
        &old,
        &new,
        ProofTranscript::new(b"rollover"),
        rand::thread_rng(),
        |n| seen.check_and_mark(n),
    );
    assert_eq!(second.err(), Some(Error::NullifierReused));
}

#[test]
fn topup_and_rollover_share_the_nullifiers() {
    let old = secret(NOW);
    let new = secret(NOW + DAY);
    let before = wallet(&old, 5);
    let nullifier = before.nullifier();
    let (_state, request) = before
        .request_topup(1, &old.parameters(), ProofTranscript::new(b"topup"), rand::thread_rng())
        .expect("request is made");
    let mut seen = NullifierSet::new();
    old.topup(request, ProofTranscript::new(b"topup"), rand::thread_rng(), |n| {
        seen.check_and_mark(n)
    })
    .expect("topup should succeed");
    // A rollover request that presents the nullifier of the spent wallet.
    let (_state, mut request) = ask(&old, &new, 5);
    request.n = nullifier;
    let result = request.rollover_at(
        NOW,
        &old,
        &new,
        ProofTranscript::new(b"rollover"),
        rand::thread_rng(),
        |n| seen.check_and_mark(n),
    );
    assert_eq!(result.err(), Some(Error::NullifierReused));
}

#[test]
fn rollover_rejects_presented_points_that_do_not_decode() {
    let old = secret(NOW);
    let new = secret(NOW + DAY);
    let bad = CompressedPoint::from_bytes([0xff; 32]);
    let (_state, mut request) = ask(&old, &new, 5);
    request.Com_w = bad;
    assert_eq!(answer(&request, NOW, &old, &new, true).err(), Some(Error::MalformedPoint));
    let (_state, mut request) = ask(&old, &new, 5);
    request.C_Q = bad;
    assert_eq!(answer(&request, NOW, &old, &new, true).err(), Some(Error::MalformedPoint));
    let (_state, mut request) = ask(&old, &new, 5);
    request.P = bad;
    assert_eq!(answer(&request, NOW, &old, &new, true).err(), Some(Error::MalformedPoint));
    // A point that the issuer only passes on to the proof fails the proof.
    let (_state, mut request) = ask(&old, &new, 5);
    request.D = bad;
    assert_eq!(answer(&request, NOW, &old, &new, true).err(), Some(Error::ProofVerificationFailed));
    let mut transcript = ProofTranscript::new(b"rollover");
    let result = request.respond_to_rollover(
        &old,
        &new,
        &mut transcript,
        &Scalar::from_u64(1),
        &Scalar::from_u64(2),
    );
    assert_eq!(result.err(), Some(Error::MalformedPoint));
}

#[test]
fn rollover_rejects_a_wallet_that_the_old_key_did_not_issue() {
    let old = secret(NOW);
    let new = secret(NOW + DAY);
    let stranger = secret(NOW);
    let (_state, request) = wallet(&stranger, 5)
        .request_rollover(
            &old.parameters(),
            &new.parameters(),
            ProofTranscript::new(b"rollover"),
            rand::thread_rng(),
        )
        .expect("request is made");
    assert_eq!(
        answer(&request, NOW, &old, &new, true).err(),
        Some(Error::ProofVerificationFailed)
    );
    // Another nullifier than the wallet's.
    let (_state, mut request) = ask(&old, &new, 5);
    request.n = Scalar::from_u64(1);
    assert_eq!(
        answer(&request, NOW, &old, &new, true).err(),
        Some(Error::ProofVerificationFailed)
    );
    // Another transcript.
    let (_state, request) = ask(&old, &new, 5);
    let result = request.rollover_at(
        NOW,
        &old,
        &new,
        ProofTranscript::new(b"other"),
        rand::thread_rng(),
        |_| true,
    );
    assert_eq!(result.err(), Some(Error::ProofVerificationFailed));
}

#[test]
fn rollover_client_rejects_a_bad_response() {
    let old = secret(NOW);
    let new = secret(NOW + DAY);
    let (state, request) = ask(&old, &new, 5);
    let mut response = answer(&request, NOW, &old, &new, true).expect("rollover should succeed");
    response.P = CompressedPoint::from_bytes([0xff; 32]);
    assert_eq!(state.verify_response(response).err(), Some(Error::MalformedPoint));

    // A response made with another new key than the one that the client asked for.
    let other = secret(NOW + DAY);
    let (state, request) = ask(&old, &new, 5);
    let response = answer(&request, NOW, &old, &other, true).expect("rollover should succeed");
    assert_eq!(state.verify_response(response).err(), Some(Error::ProofVerificationFailed));
}

#[test]
fn rollover_verdict_names_the_first_test_that_failed() {
    assert_eq!(rollover_verdict(true, true, true, true), Ok(()));
    assert_eq!(rollover_verdict(true, true, true, false), Err(Error::ProofVerificationFailed));
    assert_eq!(rollover_verdict(true, true, false, true), Err(Error::MalformedPoint));
    assert_eq!(rollover_verdict(true, true, false, false), Err(Error::MalformedPoint));
    assert_eq!(rollover_verdict(true, false, true, true), Err(Error::NullifierReused));
    assert_eq!(rollover_verdict(true, false, false, false), Err(Error::NullifierReused));
    assert_eq!(rollover_verdict(false, true, true, true), Err(Error::EpochMismatch));
    assert_eq!(rollover_verdict(false, false, false, false), Err(Error::EpochMismatch));
}

#[test]
fn rollover_accepts_old_epochs_that_have_not_expired_and_new_ones_in_use() {
    let (active, primary, rollover, invalid) =
        (EpochState::Active, EpochState::Primary, EpochState::Rollover, EpochState::Invalid);
    for old in [active, primary, rollover] {
        for new in [active, primary] {
            assert!(rollover_epochs_accepted(old, new));
        }
        for new in [rollover, invalid] {
            assert!(!rollover_epochs_accepted(old, new));
        }
    }
    for new in [active, primary, rollover, invalid] {
        assert!(!rollover_epochs_accepted(invalid, new));
    }
}
