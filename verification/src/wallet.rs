//! The wallet credential, the issuer's keys, and the three protocols that
//! make and renew wallets.

use crate::epoch::Epoch;
use crate::error::Error;
use crate::scalar::{group_order, Scalar};
use crate::statement::label_fits;
use crate::tag::{Tag, TagView};
use rand_core::{CryptoRng, RngCore};
use vstd::prelude::*;

pub mod issuance;
pub mod keys;
pub mod mac;
pub mod rollover;
pub mod topup;

pub use keys::{Parameters, Secrets};

verus! {

/// A wallet token: a balance and a nullifier, with the issuer's tag on
/// both, valid in one epoch.
pub struct Wallet {
    pub(crate) epoch: Epoch,
    pub(crate) w: u64,
    pub(crate) n: Scalar,
    pub(crate) tag: Tag,
}

/// A wallet as a value of the logic.
pub struct WalletView {
    pub epoch: Epoch,
    pub balance: nat,
    pub nullifier: nat,
    pub tag: TagView,
}

impl Wallet {
    pub open(crate) spec fn view(self) -> WalletView {
        WalletView { epoch: self.epoch, balance: self.w as nat, nullifier: self.n@, tag: self.tag@ }
    }

    /// The epoch under whose key the wallet was issued.
    pub fn epoch(&self) -> (epoch: Epoch)
        ensures
            epoch == self@.epoch,
    {
        self.epoch
    }

    /// The balance that the wallet attests to.
    pub fn balance(&self) -> (balance: u64)
        ensures
            balance == self@.balance,
    {
        self.w
    }

    /// The nullifier by which the wallet is spent.
    pub fn nullifier(&self) -> (nullifier: Scalar)
        ensures
            nullifier@ == self@.nullifier,
    {
        self.n
    }

    /// The issuer's tag on the balance and the nullifier.
    pub fn tag(&self) -> (tag: Tag)
        ensures
            tag@ == self@.tag,
    {
        self.tag
    }
}

/// The scalars that the client draws for one request to top up or to roll
/// over a wallet.
#[allow(non_snake_case)]
#[derive(Copy, Clone, Debug)]
pub struct Randomness {
    /// Rerandomizes the wallet's tag.
    pub t: Scalar,
    /// Blinds the commitments to the old and the new balance.
    pub w_blinding: Scalar,
    /// Blinds the tag's `Q`.
    pub r_Q: Scalar,
    /// The nullifier of the new wallet.
    pub n_prime: Scalar,
    /// The key under which the issuer's answer is decrypted.
    pub d: Scalar,
    /// Encrypts the new balance.
    pub r_w: Scalar,
    /// Encrypts the new nullifier.
    pub r_n: Scalar,
}

/// The client's scalars as values of the logic.
#[allow(non_snake_case)]
pub struct RandomnessView {
    pub t: nat,
    pub w_blinding: nat,
    pub r_Q: nat,
    pub n_prime: nat,
    pub d: nat,
    pub r_w: nat,
    pub r_n: nat,
}

impl Randomness {
    pub open spec fn view(self) -> RandomnessView {
        RandomnessView {
            t: self.t@,
            w_blinding: self.w_blinding@,
            r_Q: self.r_Q@,
            n_prime: self.n_prime@,
            d: self.d@,
            r_w: self.r_w@,
            r_n: self.r_n@,
        }
    }

    /// Seven scalars drawn from `rng`, in the order of the fields.
    #[allow(non_snake_case)]
    pub fn draw<R: RngCore + CryptoRng>(rng: &mut R) -> (randomness: Randomness)
        ensures
            randomness@.reduced(),
    {
        let t = Scalar::random(rng);
        let w_blinding = Scalar::random(rng);
        let r_Q = Scalar::random(rng);
        let n_prime = Scalar::random(rng);
        let d = Scalar::random(rng);
        let r_w = Scalar::random(rng);
        let r_n = Scalar::random(rng);
        Randomness { t, w_blinding, r_Q, n_prime, d, r_w, r_n }
    }
}

impl RandomnessView {
    /// Whether each of the seven scalars is a residue modulo the group
    /// order: at least 0 and below the order.
    #[allow(non_snake_case)]
    pub open spec fn reduced(self) -> bool {
        &&& self.t < group_order()
        &&& self.w_blinding < group_order()
        &&& self.r_Q < group_order()
        &&& self.n_prime < group_order()
        &&& self.d < group_order()
        &&& self.r_w < group_order()
        &&& self.r_n < group_order()
    }
}

/// Every label of the statements of the three protocols is short enough
/// to be bound into a transcript.
pub(crate) proof fn lemma_labels_fit()
    ensures
        label_fits("wallet::issuance::client"@),
        label_fits("d"@),
        label_fits("n"@),
        label_fits("r"@),
        label_fits("D"@),
        label_fits("Enc_nB_0"@),
        label_fits("Enc_nB_1"@),
        label_fits("B"@),
        label_fits("wallet::issuance::issuer"@),
        label_fits("b"@),
        label_fits("x_0"@),
        label_fits("x_1"@),
        label_fits("x_2"@),
        label_fits("x_0_blinding"@),
        label_fits("t_2"@),
        label_fits("P"@),
        label_fits("wP"@),
        label_fits("Enc_Q_0"@),
        label_fits("Enc_Q_1"@),
        label_fits("T_2_a"@),
        label_fits("T_2_b"@),
        label_fits("X_0"@),
        label_fits("X_1"@),
        label_fits("X_2"@),
        label_fits("B_blinding"@),
        label_fits("wallet::topup::client"@),
        label_fits("w"@),
        label_fits("w_prime"@),
        label_fits("w_blinding"@),
        label_fits("n_prime"@),
        label_fits("minus_r_Q"@),
        label_fits("r_w"@),
        label_fits("r_n"@),
        label_fits("Enc_w_prime_B_0"@),
        label_fits("Enc_w_prime_B_1"@),
        label_fits("Enc_n_prime_B_0"@),
        label_fits("Enc_n_prime_B_1"@),
        label_fits("V"@),
        label_fits("Com_w"@),
        label_fits("Com_w_prime"@),
        label_fits("wallet::topup::issuer"@),
        label_fits("t_1"@),
        label_fits("T_1_a"@),
        label_fits("T_1_b"@),
        label_fits("WalletRollover_Client"@),
        label_fits("r_Q"@),
        label_fits("Enc_w_B_0"@),
        label_fits("Enc_w_B_1"@),
        label_fits("WalletRollover_Issuer"@),
        label_fits("x_prime_0"@),
        label_fits("x_prime_1"@),
        label_fits("x_prime_2"@),
        label_fits("x_prime_0_blinding"@),
        label_fits("X_prime_0"@),
        label_fits("X_prime_1"@),
        label_fits("X_prime_2"@),
{
    reveal(label_fits);
    reveal_strlit("wallet::issuance::client");
    vstd::string::is_ascii_spec_bytes("wallet::issuance::client");
    reveal_strlit("d");
    vstd::string::is_ascii_spec_bytes("d");
    reveal_strlit("n");
    vstd::string::is_ascii_spec_bytes("n");
    reveal_strlit("r");
    vstd::string::is_ascii_spec_bytes("r");
    reveal_strlit("D");
    vstd::string::is_ascii_spec_bytes("D");
    reveal_strlit("Enc_nB_0");
    vstd::string::is_ascii_spec_bytes("Enc_nB_0");
    reveal_strlit("Enc_nB_1");
    vstd::string::is_ascii_spec_bytes("Enc_nB_1");
    reveal_strlit("B");
    vstd::string::is_ascii_spec_bytes("B");
    reveal_strlit("wallet::issuance::issuer");
    vstd::string::is_ascii_spec_bytes("wallet::issuance::issuer");
    reveal_strlit("b");
    vstd::string::is_ascii_spec_bytes("b");
    reveal_strlit("x_0");
    vstd::string::is_ascii_spec_bytes("x_0");
    reveal_strlit("x_1");
    vstd::string::is_ascii_spec_bytes("x_1");
    reveal_strlit("x_2");
    vstd::string::is_ascii_spec_bytes("x_2");
    reveal_strlit("x_0_blinding");
    vstd::string::is_ascii_spec_bytes("x_0_blinding");
    reveal_strlit("t_2");
    vstd::string::is_ascii_spec_bytes("t_2");
    reveal_strlit("P");
    vstd::string::is_ascii_spec_bytes("P");
    reveal_strlit("wP");
    vstd::string::is_ascii_spec_bytes("wP");
    reveal_strlit("Enc_Q_0");
    vstd::string::is_ascii_spec_bytes("Enc_Q_0");
    reveal_strlit("Enc_Q_1");
    vstd::string::is_ascii_spec_bytes("Enc_Q_1");
    reveal_strlit("T_2_a");
    vstd::string::is_ascii_spec_bytes("T_2_a");
    reveal_strlit("T_2_b");
    vstd::string::is_ascii_spec_bytes("T_2_b");
    reveal_strlit("X_0");
    vstd::string::is_ascii_spec_bytes("X_0");
    reveal_strlit("X_1");
    vstd::string::is_ascii_spec_bytes("X_1");
    reveal_strlit("X_2");
    vstd::string::is_ascii_spec_bytes("X_2");
    reveal_strlit("B_blinding");
    vstd::string::is_ascii_spec_bytes("B_blinding");
    reveal_strlit("wallet::topup::client");
    vstd::string::is_ascii_spec_bytes("wallet::topup::client");
    reveal_strlit("w");
    vstd::string::is_ascii_spec_bytes("w");
    reveal_strlit("w_prime");
    vstd::string::is_ascii_spec_bytes("w_prime");
    reveal_strlit("w_blinding");
    vstd::string::is_ascii_spec_bytes("w_blinding");
    reveal_strlit("n_prime");
    vstd::string::is_ascii_spec_bytes("n_prime");
    reveal_strlit("minus_r_Q");
    vstd::string::is_ascii_spec_bytes("minus_r_Q");
    reveal_strlit("r_w");
    vstd::string::is_ascii_spec_bytes("r_w");
    reveal_strlit("r_n");
    vstd::string::is_ascii_spec_bytes("r_n");
    reveal_strlit("Enc_w_prime_B_0");
    vstd::string::is_ascii_spec_bytes("Enc_w_prime_B_0");
    reveal_strlit("Enc_w_prime_B_1");
    vstd::string::is_ascii_spec_bytes("Enc_w_prime_B_1");
    reveal_strlit("Enc_n_prime_B_0");
    vstd::string::is_ascii_spec_bytes("Enc_n_prime_B_0");
    reveal_strlit("Enc_n_prime_B_1");
    vstd::string::is_ascii_spec_bytes("Enc_n_prime_B_1");
    reveal_strlit("V");
    vstd::string::is_ascii_spec_bytes("V");
    reveal_strlit("Com_w");
    vstd::string::is_ascii_spec_bytes("Com_w");
    reveal_strlit("Com_w_prime");
    vstd::string::is_ascii_spec_bytes("Com_w_prime");
    reveal_strlit("wallet::topup::issuer");
    vstd::string::is_ascii_spec_bytes("wallet::topup::issuer");
    reveal_strlit("t_1");
    vstd::string::is_ascii_spec_bytes("t_1");
    reveal_strlit("T_1_a");
    vstd::string::is_ascii_spec_bytes("T_1_a");
    reveal_strlit("T_1_b");
    vstd::string::is_ascii_spec_bytes("T_1_b");
    reveal_strlit("WalletRollover_Client");
    vstd::string::is_ascii_spec_bytes("WalletRollover_Client");
    reveal_strlit("r_Q");
    vstd::string::is_ascii_spec_bytes("r_Q");
    reveal_strlit("Enc_w_B_0");
    vstd::string::is_ascii_spec_bytes("Enc_w_B_0");
    reveal_strlit("Enc_w_B_1");
    vstd::string::is_ascii_spec_bytes("Enc_w_B_1");
    reveal_strlit("WalletRollover_Issuer");
    vstd::string::is_ascii_spec_bytes("WalletRollover_Issuer");
    reveal_strlit("x_prime_0");
    vstd::string::is_ascii_spec_bytes("x_prime_0");
    reveal_strlit("x_prime_1");
    vstd::string::is_ascii_spec_bytes("x_prime_1");
    reveal_strlit("x_prime_2");
    vstd::string::is_ascii_spec_bytes("x_prime_2");
    reveal_strlit("x_prime_0_blinding");
    vstd::string::is_ascii_spec_bytes("x_prime_0_blinding");
    reveal_strlit("X_prime_0");
    vstd::string::is_ascii_spec_bytes("X_prime_0");
    reveal_strlit("X_prime_1");
    vstd::string::is_ascii_spec_bytes("X_prime_1");
    reveal_strlit("X_prime_2");
    vstd::string::is_ascii_spec_bytes("X_prime_2");
}

/// Double-spend rejection. Let the issuer's oracle be a set of marked
/// nullifiers, as [`crate::nullifier::NullifierSet`] is one: a nullifier is
/// fresh when it is not in the set, and asking marks it. Then a nullifier
/// that has been presented, to a topup or to a rollover, is rejected as
/// reused when it is presented again, to either, whatever else the second
/// request holds; and the first presentation is not rejected when the
/// nullifier was not marked and the request passes the other tests.
pub proof fn double_spend_is_rejected(
    marked: Set<Seq<u8>>,
    nullifier: Seq<u8>,
    decodes: bool,
    proof_accepted: bool,
    range_accepted: bool,
)
    ensures
        topup::topup_verdict_spec(
            true,
            !marked.insert(nullifier).contains(nullifier),
            decodes,
            proof_accepted,
            range_accepted,
        ) == Err::<(), Error>(Error::NullifierReused),
        rollover::rollover_verdict_spec(
            true,
            !marked.insert(nullifier).contains(nullifier),
            decodes,
            proof_accepted,
        ) == Err::<(), Error>(Error::NullifierReused),
        !marked.contains(nullifier) ==> topup::topup_verdict_spec(
            true,
            !marked.contains(nullifier),
            true,
            true,
            true,
        ) == Ok::<(), Error>(()),
        !marked.contains(nullifier) ==> rollover::rollover_verdict_spec(
            true,
            !marked.contains(nullifier),
            true,
            true,
        ) == Ok::<(), Error>(()),
{
}

} // verus!
