use danake::wallet::{Parameters, Secrets, Wallet};
use danake::{EpochParameters, Error, NullifierSet, ProofTranscript};

#[test]
fn issue_top_up_and_roll_over() {
    let day = 86400;
    let now = 1_700_000_000;
    let epoch_params = EpochParameters::new(86400);
    let epoch = epoch_params.epoch_at(now);
    let secret = Secrets::new(epoch, rand::thread_rng());
    let params = Parameters::from(&secret);
    let mut spent = NullifierSet::new();

    // Issue a wallet with the balance 1000.
    let (state, request) = Wallet::request_issuance(
        1_000,
        &params,
        ProofTranscript::new(b"issuance"),
        rand::thread_rng(),
    );
    let response = secret
        .issue(request, ProofTranscript::new(b"issuance"), rand::thread_rng())
        .expect("issuance should succeed");
    let wallet = state.verify_response(response).expect("response should verify");
    assert_eq!(wallet.balance(), 1_000);
    assert_eq!(wallet.epoch(), epoch);
    let first_nullifier = wallet.nullifier();

    // Top it up by 2000.
    let (state, request) = wallet
        .request_topup(2_000, &params, ProofTranscript::new(b"topup"), rand::thread_rng())
        .expect("epoch is correct");
    let response = secret
        .topup(request, ProofTranscript::new(b"topup"), rand::thread_rng(), |n| {
            spent.check_and_mark(n)
        })
        .expect("topup should succeed");
    let wallet = state.verify_response(response).expect("response should verify");
    assert_eq!(wallet.balance(), 3_000);
    assert_eq!(wallet.epoch(), epoch);
    assert!(spent.contains(&first_nullifier.to_bytes()));
    let second_nullifier = wallet.nullifier();
    assert_ne!(second_nullifier, first_nullifier);
    assert!(!spent.contains(&second_nullifier.to_bytes()));

    // Roll it over to a fresh key for the next epoch.
    let new_epoch = epoch_params.epoch_at(now + day);
    let new_secret = Secrets::new(new_epoch, rand::thread_rng());
    let new_params = Parameters::from(&new_secret);
    let (state, request) = wallet
        .request_rollover(
            &params,
            &new_params,
            ProofTranscript::new(b"rollover"),
            rand::thread_rng(),
        )
        .expect("rollover request should succeed");
    let replay = request.clone();
    let response = request
        .rollover_at(
            now + day,
            &secret,
            &new_secret,
            ProofTranscript::new(b"rollover"),
            rand::thread_rng(),
            |n| spent.check_and_mark(n),
        )
        .expect("rollover should succeed");
    let wallet = state.verify_response(response).expect("response should verify");
    assert_eq!(wallet.balance(), 3_000);
    assert_eq!(wallet.epoch(), new_epoch);
    assert_eq!(wallet.epoch().index(), epoch.index() + 1);
    assert_ne!(wallet.nullifier(), second_nullifier);
    assert_ne!(wallet.nullifier(), first_nullifier);
    assert!(spent.contains(&second_nullifier.to_bytes()));
    assert!(!spent.contains(&wallet.nullifier().to_bytes()));

    // The spent wallet cannot be rolled over again.
    let again = replay.rollover_at(
        now + day,
        &secret,
        &new_secret,
        ProofTranscript::new(b"rollover"),
        rand::thread_rng(),
        |n| spent.check_and_mark(n),
    );
    assert_eq!(again.err(), Some(Error::NullifierReused));
}

#[test]
fn rollover_at_the_present_moment() {
    let epoch_params = EpochParameters::new(86400);
    let epoch = epoch_params.epoch_at(chrono::Utc::now().timestamp());
    let secret = Secrets::new(epoch, rand::thread_rng());
    let new_secret = Secrets::new(epoch, rand::thread_rng());
    let (state, request) = Wallet::request_issuance(
        7,
        &secret.parameters(),
        ProofTranscript::new(b"issuance"),
        rand::thread_rng(),
    );
    let response = secret
        .issue(request, ProofTranscript::new(b"issuance"), rand::thread_rng())
        .expect("issuance should succeed");
    let wallet = state.verify_response(response).expect("response should verify");
    let (state, request) = wallet
        .request_rollover(
            &secret.parameters(),
            &new_secret.parameters(),
            ProofTranscript::new(b"rollover"),
            rand::thread_rng(),
        )
        .expect("rollover request should succeed");
    let response = request
        .rollover(
            secret,
            new_secret,
            ProofTranscript::new(b"rollover"),
            rand::thread_rng(),
            |_| true,
        )
        .expect("rollover should succeed");
    let wallet = state.verify_response(response).expect("response should verify");
    assert_eq!(wallet.balance(), 7);

    // A wallet of an epoch long past is not rolled over at the present moment.
    let past = epoch_params.epoch_at(1_000_000_000);
    let old_secret = Secrets::new(past, rand::thread_rng());
    let new_secret = Secrets::new(epoch, rand::thread_rng());
    let (state, request) = Wallet::request_issuance(
        7,
        &old_secret.parameters(),
        ProofTranscript::new(b"issuance"),
        rand::thread_rng(),
    );
    let response = old_secret
        .issue(request, ProofTranscript::new(b"issuance"), rand::thread_rng())
        .expect("issuance should succeed");
    let wallet = state.verify_response(response).expect("response should verify");
    let (_state, request) = wallet
        .request_rollover(
            &old_secret.parameters(),
            &new_secret.parameters(),
            ProofTranscript::new(b"rollover"),
            rand::thread_rng(),
        )
        .expect("rollover request should succeed");
    let result = request.rollover(
        old_secret,
        new_secret,
        ProofTranscript::new(b"rollover"),
        rand::thread_rng(),
        |_| true,
    );
    assert_eq!(result.err(), Some(Error::EpochMismatch));
}
