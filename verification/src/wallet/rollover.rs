//! Rollover protocol states and messages.
//!
//! The client presents a wallet that was issued under the key of one epoch
//! and asks for a wallet with the same balance under the key of a later
//! epoch. The issuer learns the spent nullifier, and never the balance.

use crate::algebra::group_laws;
use crate::constants::{base, basepoint, blinding_base, blinding_basepoint};
use crate::epoch::{epoch_index, state_of_delta, Epoch, EpochState};
use crate::error::Error;
use crate::point::{
    compressed_encodings, is_ristretto_encoding, point_encodings, ristretto_add, ristretto_mul,
    ristretto_multiscalar_mul, ristretto_sub, Ciphertext, CompressedPoint, Point,
};
use crate::range::{commit, commitment};
use crate::scalar::{group_order, reduce, Scalar};
use crate::statement::{
    proof_checked, prove, relation, term, verify, CompactProof, RelationView, Statement,
    StatementView,
};
use crate::tag::{randomized, Tag, TagView};
use crate::transcript::{Entry, ProofTranscript};
use crate::wallet::keys::{parameters_of, Parameters, ParametersView, Secrets, SecretsView};
use crate::wallet::mac::{attests, lemma_blinded_values_agree, lemma_decrypts_to_mac};
use crate::wallet::{lemma_labels_fit, Randomness, RandomnessView, Wallet, WalletView};
use rand_core::{CryptoRng, RngCore};
use vstd::prelude::*;

verus! {

/// What the client proves of its request: it knows `d`, `w`, `w_blinding`,
/// `n_prime`, `minus_r_Q`, `r_Q`, `r_w` and `r_n` with
///
/// ```text
/// Enc_n_prime_B_0 = r_n * B
/// Enc_n_prime_B_1 = n_prime * B + r_n * D
/// Enc_w_B_0       = r_w * B
/// Enc_w_B_1       = w * B + r_w * D
/// Com_w           = w * P + w_blinding * B_blinding
/// V               = w_blinding * X_1 + minus_r_Q * B
/// ```
#[allow(non_snake_case)]
pub open spec fn client_statement_spec() -> StatementView {
    let d = 0int;
    let w = 1int;
    let w_blinding = 2int;
    let n_prime = 3int;
    let minus_r_Q = 4int;
    let r_Q = 5int;
    let r_w = 6int;
    let r_n = 7int;
    let D = 0int;
    let Enc_w_B_0 = 1int;
    let Enc_w_B_1 = 2int;
    let Enc_n_prime_B_0 = 3int;
    let Enc_n_prime_B_1 = 4int;
    let P = 5int;
    let V = 6int;
    let Com_w = 7int;
    let B = 8int;
    let B_blinding = 9int;
    let X_1 = 10int;
    StatementView {
        label: "WalletRollover_Client"@,
        scalars: seq!["d"@, "w"@, "w_blinding"@, "n_prime"@, "minus_r_Q"@, "r_Q"@, "r_w"@, "r_n"@],
        points: seq![
            "D"@, "Enc_w_B_0"@, "Enc_w_B_1"@, "Enc_n_prime_B_0"@, "Enc_n_prime_B_1"@, "P"@, "V"@,
            "Com_w"@, "B"@, "B_blinding"@, "X_1"@,
        ],
        relations: seq![
            RelationView { lhs: Enc_n_prime_B_0, terms: seq![(r_n, B)] },
            RelationView { lhs: Enc_n_prime_B_1, terms: seq![(n_prime, B), (r_n, D)] },
            RelationView { lhs: Enc_w_B_0, terms: seq![(r_w, B)] },
            RelationView { lhs: Enc_w_B_1, terms: seq![(w, B), (r_w, D)] },
            RelationView { lhs: Com_w, terms: seq![(w, P), (w_blinding, B_blinding)] },
            RelationView { lhs: V, terms: seq![(w_blinding, X_1), (minus_r_Q, B)] },
        ],
    }
}

/// The statement that the client proves of its request.
#[allow(non_snake_case)]
#[allow(unused_variables)]
pub fn client_statement() -> (statement: Statement)
    ensures
        statement@ == client_statement_spec(),
        statement@.well_formed(),
{
    let d: usize = 0;
    let w: usize = 1;
    let w_blinding: usize = 2;
    let n_prime: usize = 3;
    let minus_r_Q: usize = 4;
    let r_Q: usize = 5;
    let r_w: usize = 6;
    let r_n: usize = 7;
    let D: usize = 0;
    let Enc_w_B_0: usize = 1;
    let Enc_w_B_1: usize = 2;
    let Enc_n_prime_B_0: usize = 3;
    let Enc_n_prime_B_1: usize = 4;
    let P: usize = 5;
    let V: usize = 6;
    let Com_w: usize = 7;
    let B: usize = 8;
    let B_blinding: usize = 9;
    let X_1: usize = 10;
    let statement = Statement {
        label: "WalletRollover_Client",
        scalars: vec!["d", "w", "w_blinding", "n_prime", "minus_r_Q", "r_Q", "r_w", "r_n"],
        points: vec![
            "D", "Enc_w_B_0", "Enc_w_B_1", "Enc_n_prime_B_0", "Enc_n_prime_B_1", "P", "V", "Com_w",
            "B", "B_blinding", "X_1",
        ],
        relations: vec![
            relation(Enc_n_prime_B_0, vec![term(r_n, B)]),
            relation(Enc_n_prime_B_1, vec![term(n_prime, B), term(r_n, D)]),
            relation(Enc_w_B_0, vec![term(r_w, B)]),
            relation(Enc_w_B_1, vec![term(w, B), term(r_w, D)]),
            relation(Com_w, vec![term(w, P), term(w_blinding, B_blinding)]),
            relation(V, vec![term(w_blinding, X_1), term(minus_r_Q, B)]),
        ],
    };
    proof {
        let spec = client_statement_spec();
        assert(statement@.scalars =~= spec.scalars);
        assert(statement@.points =~= spec.points);
        assert(statement@.relations[0].terms =~= spec.relations[0].terms);
        assert(statement@.relations[1].terms =~= spec.relations[1].terms);
        assert(statement@.relations[2].terms =~= spec.relations[2].terms);
        assert(statement@.relations[3].terms =~= spec.relations[3].terms);
        assert(statement@.relations[4].terms =~= spec.relations[4].terms);
        assert(statement@.relations[5].terms =~= spec.relations[5].terms);
        assert(statement@.relations =~= spec.relations);
        lemma_client_statement_well_formed();
    }
    statement
}

/// The client's statement is well formed.
proof fn lemma_client_statement_well_formed()
    ensures
        client_statement_spec().well_formed(),
{
    lemma_labels_fit();
}

/// What the issuer proves of its response: it knows `b`, `r`, `x_0`, `x_1`,
/// `x_2`, `x_0_blinding`, `x_prime_0`, `x_prime_1`, `x_prime_2`,
/// `x_prime_0_blinding`, `t_1` and `t_2` with
///
/// ```text
/// X_0       = x_0 * B + x_0_blinding * B_blinding
/// X_1       = x_1 * B_blinding
/// X_2       = x_2 * B_blinding
/// X_prime_0 = x_prime_0 * B + x_prime_0_blinding * B_blinding
/// X_prime_1 = x_prime_1 * B_blinding
/// X_prime_2 = x_prime_2 * B_blinding
/// P         = b * B
/// T_1_a     = b * X_prime_1
/// T_1_b     = t_1 * B_blinding
/// T_2_a     = b * X_prime_2
/// T_2_b     = t_2 * B_blinding
/// Enc_Q_0   = r * B + t_1 * Enc_w_B_0 + t_2 * Enc_n_prime_B_0
/// Enc_Q_1   = x_prime_0 * P + r * D + t_1 * Enc_w_B_1 + t_2 * Enc_n_prime_B_1
/// ```
#[allow(non_snake_case)]
pub open spec fn issuer_statement_spec() -> StatementView {
    let b = 0int;
    let r = 1int;
    let x_0 = 2int;
    let x_1 = 3int;
    let x_2 = 4int;
    let x_0_blinding = 5int;
    let x_prime_0 = 6int;
    let x_prime_1 = 7int;
    let x_prime_2 = 8int;
    let x_prime_0_blinding = 9int;
    let t_1 = 10int;
    let t_2 = 11int;
    let P = 0int;
    let D = 1int;
    let Enc_w_B_0 = 2int;
    let Enc_w_B_1 = 3int;
    let Enc_n_prime_B_0 = 4int;
    let Enc_n_prime_B_1 = 5int;
    let Enc_Q_0 = 6int;
    let Enc_Q_1 = 7int;
    let T_1_a = 8int;
    let T_1_b = 9int;
    let T_2_a = 10int;
    let T_2_b = 11int;
    let X_0 = 12int;
    let X_1 = 13int;
    let X_2 = 14int;
    let X_prime_0 = 15int;
    let X_prime_1 = 16int;
    let X_prime_2 = 17int;
    let B = 18int;
    let B_blinding = 19int;
    StatementView {
        label: "WalletRollover_Issuer"@,
        scalars: seq![
            "b"@, "r"@, "x_0"@, "x_1"@, "x_2"@, "x_0_blinding"@, "x_prime_0"@, "x_prime_1"@,
            "x_prime_2"@, "x_prime_0_blinding"@, "t_1"@, "t_2"@,
        ],
        points: seq![
            "P"@, "D"@, "Enc_w_B_0"@, "Enc_w_B_1"@, "Enc_n_prime_B_0"@, "Enc_n_prime_B_1"@,
            "Enc_Q_0"@, "Enc_Q_1"@, "T_1_a"@, "T_1_b"@, "T_2_a"@, "T_2_b"@, "X_0"@, "X_1"@, "X_2"@,
            "X_prime_0"@, "X_prime_1"@, "X_prime_2"@, "B"@, "B_blinding"@,
        ],
        relations: seq![
            RelationView { lhs: X_0, terms: seq![(x_0, B), (x_0_blinding, B_blinding)] },
            RelationView { lhs: X_1, terms: seq![(x_1, B_blinding)] },
            RelationView { lhs: X_2, terms: seq![(x_2, B_blinding)] },
            RelationView { lhs: X_prime_0, terms: seq![
                (x_prime_0, B), (x_prime_0_blinding, B_blinding),
            ] },
            RelationView { lhs: X_prime_1, terms: seq![(x_prime_1, B_blinding)] },
            RelationView { lhs: X_prime_2, terms: seq![(x_prime_2, B_blinding)] },
            RelationView { lhs: P, terms: seq![(b, B)] },
            RelationView { lhs: T_1_a, terms: seq![(b, X_prime_1)] },
            RelationView { lhs: T_1_b, terms: seq![(t_1, B_blinding)] },
            RelationView { lhs: T_2_a, terms: seq![(b, X_prime_2)] },
            RelationView { lhs: T_2_b, terms: seq![(t_2, B_blinding)] },
            RelationView { lhs: Enc_Q_0, terms: seq![
                (r, B), (t_1, Enc_w_B_0), (t_2, Enc_n_prime_B_0),
            ] },
            RelationView { lhs: Enc_Q_1, terms: seq![
                (x_prime_0, P), (r, D), (t_1, Enc_w_B_1), (t_2, Enc_n_prime_B_1),
            ] },
        ],
    }
}

/// The statement that the issuer proves of its response.
#[allow(non_snake_case)]
#[allow(unused_variables)]
pub fn issuer_statement() -> (statement: Statement)
    ensures
        statement@ == issuer_statement_spec(),
        statement@.well_formed(),
{
    let b: usize = 0;
    let r: usize = 1;
    let x_0: usize = 2;
    let x_1: usize = 3;
    let x_2: usize = 4;
    let x_0_blinding: usize = 5;
    let x_prime_0: usize = 6;
    let x_prime_1: usize = 7;
    let x_prime_2: usize = 8;
    let x_prime_0_blinding: usize = 9;
    let t_1: usize = 10;
    let t_2: usize = 11;
    let P: usize = 0;
    let D: usize = 1;
    let Enc_w_B_0: usize = 2;
    let Enc_w_B_1: usize = 3;
    let Enc_n_prime_B_0: usize = 4;
    let Enc_n_prime_B_1: usize = 5;
    let Enc_Q_0: usize = 6;
    let Enc_Q_1: usize = 7;
    let T_1_a: usize = 8;
    let T_1_b: usize = 9;
    let T_2_a: usize = 10;
    let T_2_b: usize = 11;
    let X_0: usize = 12;
    let X_1: usize = 13;
    let X_2: usize = 14;
    let X_prime_0: usize = 15;
    let X_prime_1: usize = 16;
    let X_prime_2: usize = 17;
    let B: usize = 18;
    let B_blinding: usize = 19;
    let statement = Statement {
        label: "WalletRollover_Issuer",
        scalars: vec![
            "b", "r", "x_0", "x_1", "x_2", "x_0_blinding", "x_prime_0", "x_prime_1", "x_prime_2",
            "x_prime_0_blinding", "t_1", "t_2",
        ],
        points: vec![
            "P", "D", "Enc_w_B_0", "Enc_w_B_1", "Enc_n_prime_B_0", "Enc_n_prime_B_1", "Enc_Q_0",
            "Enc_Q_1", "T_1_a", "T_1_b", "T_2_a", "T_2_b", "X_0", "X_1", "X_2", "X_prime_0",
            "X_prime_1", "X_prime_2", "B", "B_blinding",
        ],
        relations: vec![
            relation(X_0, vec![term(x_0, B), term(x_0_blinding, B_blinding)]),
            relation(X_1, vec![term(x_1, B_blinding)]),
            relation(X_2, vec![term(x_2, B_blinding)]),
            relation(X_prime_0, vec![term(x_prime_0, B), term(x_prime_0_blinding, B_blinding)]),
            relation(X_prime_1, vec![term(x_prime_1, B_blinding)]),
            relation(X_prime_2, vec![term(x_prime_2, B_blinding)]),
            relation(P, vec![term(b, B)]),
            relation(T_1_a, vec![term(b, X_prime_1)]),
            relation(T_1_b, vec![term(t_1, B_blinding)]),
            relation(T_2_a, vec![term(b, X_prime_2)]),
            relation(T_2_b, vec![term(t_2, B_blinding)]),
            relation(Enc_Q_0, vec![term(r, B), term(t_1, Enc_w_B_0), term(t_2, Enc_n_prime_B_0)]),
            relation(Enc_Q_1, vec![
                term(x_prime_0, P), term(r, D), term(t_1, Enc_w_B_1), term(t_2, Enc_n_prime_B_1),
            ]),
        ],
    };
    proof {
        let spec = issuer_statement_spec();
        assert(statement@.scalars =~= spec.scalars);
        assert(statement@.points =~= spec.points);
        assert(statement@.relations[0].terms =~= spec.relations[0].terms);
        assert(statement@.relations[1].terms =~= spec.relations[1].terms);
        assert(statement@.relations[2].terms =~= spec.relations[2].terms);
        assert(statement@.relations[3].terms =~= spec.relations[3].terms);
        assert(statement@.relations[4].terms =~= spec.relations[4].terms);
        assert(statement@.relations[5].terms =~= spec.relations[5].terms);
        assert(statement@.relations[6].terms =~= spec.relations[6].terms);
        assert(statement@.relations[7].terms =~= spec.relations[7].terms);
        assert(statement@.relations[8].terms =~= spec.relations[8].terms);
        assert(statement@.relations[9].terms =~= spec.relations[9].terms);
        assert(statement@.relations[10].terms =~= spec.relations[10].terms);
        assert(statement@.relations[11].terms =~= spec.relations[11].terms);
        assert(statement@.relations[12].terms =~= spec.relations[12].terms);
        assert(statement@.relations =~= spec.relations);
        lemma_issuer_statement_well_formed();
    }
    statement
}

/// The issuer's statement is well formed.
proof fn lemma_issuer_statement_well_formed()
    ensures
        issuer_statement_spec().well_formed(),
{
    lemma_labels_fit();
}

/// A request for wallet rollover.
#[allow(non_snake_case)]
#[derive(Clone, Debug)]
pub struct Request {
    pub epoch: Epoch,
    pub new_epoch: Epoch,
    pub n: Scalar,
    pub D: CompressedPoint,
    pub Enc_n_prime_B: Ciphertext,
    pub Enc_w_B: Ciphertext,
    pub Com_w: CompressedPoint,
    pub P: CompressedPoint,
    pub C_Q: CompressedPoint,
    pub proof: CompactProof,
}

/// State held by the client while awaiting a wallet rollover response.
#[allow(non_snake_case)]
pub struct AwaitingResponse {
    pub(crate) old_parameters: Parameters,
    pub(crate) new_parameters: Parameters,
    pub(crate) transcript: ProofTranscript,
    pub(crate) n_prime: Scalar,
    pub(crate) w: u64,
    pub(crate) d: Scalar,
    pub(crate) D: Point,
    pub(crate) Enc_w_B: Ciphertext,
    pub(crate) Enc_n_prime_B: Ciphertext,
}

/// A response to a wallet rollover request.
#[allow(non_snake_case)]
#[derive(Clone, Debug)]
pub struct Response {
    pub P: CompressedPoint,
    pub Enc_Q: Ciphertext,
    pub T_1: CompressedPoint,
    pub T_2: CompressedPoint,
    pub proof: CompactProof,
}

/// A rollover request as a value of the logic, without its proof.
#[allow(non_snake_case)]
pub struct RequestView {
    pub epoch: Epoch,
    pub new_epoch: Epoch,
    pub n: nat,
    pub D: Seq<u8>,
    pub Enc_n_prime_B: (Seq<u8>, Seq<u8>),
    pub Enc_w_B: (Seq<u8>, Seq<u8>),
    pub Com_w: Seq<u8>,
    pub P: Seq<u8>,
    pub C_Q: Seq<u8>,
}

/// The client's state as a value of the logic.
#[allow(non_snake_case)]
pub struct AwaitingResponseView {
    pub old_parameters: ParametersView,
    pub new_parameters: ParametersView,
    pub transcript: Seq<Entry>,
    pub n_prime: nat,
    pub w: u64,
    pub d: nat,
    pub D: Seq<u8>,
    pub Enc_w_B: (Seq<u8>, Seq<u8>),
    pub Enc_n_prime_B: (Seq<u8>, Seq<u8>),
}

/// A rollover response as a value of the logic, without its proof.
#[allow(non_snake_case)]
pub struct ResponseView {
    pub P: Seq<u8>,
    pub Enc_Q: (Seq<u8>, Seq<u8>),
    pub T_1: Seq<u8>,
    pub T_2: Seq<u8>,
}

impl Request {
    pub open spec fn view(self) -> RequestView {
        RequestView {
            epoch: self.epoch,
            new_epoch: self.new_epoch,
            n: self.n@,
            D: self.D@,
            Enc_n_prime_B: self.Enc_n_prime_B@,
            Enc_w_B: self.Enc_w_B@,
            Com_w: self.Com_w@,
            P: self.P@,
            C_Q: self.C_Q@,
        }
    }
}

impl AwaitingResponse {
    pub open(crate) spec fn view(self) -> AwaitingResponseView {
        AwaitingResponseView {
            old_parameters: self.old_parameters@,
            new_parameters: self.new_parameters@,
            transcript: self.transcript@,
            n_prime: self.n_prime@,
            w: self.w,
            d: self.d@,
            D: self.D@,
            Enc_w_B: self.Enc_w_B@,
            Enc_n_prime_B: self.Enc_n_prime_B@,
        }
    }
}

impl Response {
    pub open spec fn view(self) -> ResponseView {
        ResponseView { P: self.P@, Enc_Q: self.Enc_Q@, T_1: self.T_1@, T_2: self.T_2@ }
    }
}

/// The points that the client's proof speaks of, in the order of the
/// client's statement: those of the request, the blinded value `V`, and the
/// old issuer's `X_1`.
#[allow(non_snake_case)]
pub open spec fn client_points(request: RequestView, V: Seq<u8>, X_1: Seq<u8>) -> Seq<Seq<u8>> {
    seq![
        request.D,
        request.Enc_w_B.0,
        request.Enc_w_B.1,
        request.Enc_n_prime_B.0,
        request.Enc_n_prime_B.1,
        request.P,
        V,
        request.Com_w,
        basepoint(),
        blinding_basepoint(),
        X_1,
    ]
}

/// The points that the issuer's proof speaks of, in the order of the
/// issuer's statement.
#[allow(non_snake_case)]
pub open spec fn issuer_points(
    response: ResponseView,
    D: Seq<u8>,
    Enc_w_B: (Seq<u8>, Seq<u8>),
    Enc_n_prime_B: (Seq<u8>, Seq<u8>),
    old_parameters: ParametersView,
    new_parameters: ParametersView,
) -> Seq<Seq<u8>> {
    seq![
        response.P,
        D,
        Enc_w_B.0,
        Enc_w_B.1,
        Enc_n_prime_B.0,
        Enc_n_prime_B.1,
        response.Enc_Q.0,
        response.Enc_Q.1,
        response.T_1,
        response.T_1,
        response.T_2,
        response.T_2,
        old_parameters.X_0,
        old_parameters.X_1,
        old_parameters.X_2,
        new_parameters.X_0,
        new_parameters.X_1,
        new_parameters.X_2,
        basepoint(),
        blinding_basepoint(),
    ]
}

/// The blinded value `V = w_blinding * X_1 - r_Q * B` as the client
/// computes it.
#[allow(non_snake_case)]
pub open spec fn client_blinded_value(X_1: Seq<u8>, w_blinding: nat, r_Q: nat) -> Seq<u8> {
    ristretto_sub(ristretto_mul(w_blinding, X_1), ristretto_mul(r_Q, basepoint()))
}

/// The blinded value `V = (x_0 + x_2 * n) * P + x_1 * Com_w - C_Q` as the
/// issuer computes it with the old key from what the client presents.
pub open spec fn issuer_blinded_value(old_secrets: SecretsView, request: RequestView) -> Seq<u8> {
    ristretto_sub(
        ristretto_multiscalar_mul(
            seq![reduce(old_secrets.x_0 + old_secrets.x_2 * request.n), old_secrets.x_1],
            seq![request.P, request.Com_w],
        ),
        request.C_Q,
    )
}

/// What a request to roll `wallet` over from the key with the public
/// parameters `old_parameters` to the key with `new_parameters` is, made
/// with the scalars `drawn` on a transcript with the history `before`: the
/// request and the state that the client keeps.
///
/// The wallet's tag `(P, Q)` is rerandomized with `t`. The request names
/// both epochs and the wallet's nullifier in the clear, and carries `P`, the
/// commitment `Com_w = w * P + w_blinding * B_blinding` to the balance, the
/// blinded `C_Q = Q + r_Q * B`, `D = d * B`, and encryptions under `D` of
/// `w * B` and of `n' * B` for the new nullifier `n'`.
#[allow(non_snake_case)]
pub open spec fn rollover_requested(
    wallet: WalletView,
    old_parameters: ParametersView,
    new_parameters: ParametersView,
    before: Seq<Entry>,
    drawn: RandomnessView,
    state: AwaitingResponseView,
    request: RequestView,
) -> bool {
    let B = basepoint();
    let tag = randomized(wallet.tag, drawn.t);
    &&& request.epoch == old_parameters.epoch
    &&& request.new_epoch == new_parameters.epoch
    &&& request.n == wallet.nullifier
    &&& request.P == tag.P
    &&& request.Com_w == commitment(tag.P, wallet.balance, drawn.w_blinding)
    &&& request.C_Q == ristretto_add(tag.Q, ristretto_mul(drawn.r_Q, B))
    &&& request.D == ristretto_mul(drawn.d, B)
    &&& request.Enc_w_B == (
        ristretto_mul(drawn.r_w, B),
        ristretto_mul(reduce(wallet.balance + drawn.r_w * drawn.d), B),
    )
    &&& request.Enc_n_prime_B == (
        ristretto_mul(drawn.r_n, B),
        ristretto_mul(reduce(drawn.n_prime + drawn.r_n * drawn.d), B),
    )
    &&& state.old_parameters == old_parameters
    &&& state.new_parameters == new_parameters
    &&& state.w as nat == wallet.balance
    &&& state.n_prime == drawn.n_prime
    &&& state.d == drawn.d
    &&& state.D == request.D
    &&& state.Enc_w_B == request.Enc_w_B
    &&& state.Enc_n_prime_B == request.Enc_n_prime_B
    &&& state.transcript == before.push(
        Entry::Proof {
            statement: client_statement_spec(),
            points: client_points(
                request,
                client_blinded_value(old_parameters.X_1, drawn.w_blinding, drawn.r_Q),
                old_parameters.X_1,
            ),
            accepted: true,
        },
    )
}

impl Wallet {
    /// Request a rollover, consuming this credential and generating a
    /// rollover request message together with the client state needed to
    /// verify a response with a new wallet credential. The scalars of the
    /// request are drawn from `rng`. The request is always made: whether the
    /// two epochs are acceptable is for the issuer to say.
    #[allow(non_snake_case)]
    pub fn request_rollover<R: RngCore + CryptoRng>(
        self,
        old_parameters: &Parameters,
        new_parameters: &Parameters,
        transcript: ProofTranscript,
        mut rng: R,
    ) -> (result: Result<(AwaitingResponse, Request), Error>)
        ensures
            match result {
                Ok(out) => {
                    &&& exists|drawn: RandomnessView|
                        rollover_requested(
                            self@,
                            old_parameters@,
                            new_parameters@,
                            transcript@,
                            drawn,
                            out.0@,
                            out.1@,
                        )
                    &&& out.1.proof.responses@.len() == client_statement_spec().scalars.len()
                },
                Err(_) => false,
            },
    {
        let t = Scalar::random(&mut rng);
        let w_blinding = Scalar::random(&mut rng);
        let r_Q = Scalar::random(&mut rng);
        let n_prime = Scalar::random(&mut rng);
        let d = Scalar::random(&mut rng);
        let r_n = Scalar::random(&mut rng);
        let r_w = Scalar::random(&mut rng);
        let drawn = Randomness { t, w_blinding, r_Q, n_prime, d, r_w, r_n };
        let result = Ok(
            self.request_rollover_with(old_parameters, new_parameters, transcript, &drawn),
        );
        assert(result matches Ok(out) && rollover_requested(
            self@,
            old_parameters@,
            new_parameters@,
            transcript@,
            drawn@,
            out.0@,
            out.1@,
        ));
        result
    }

    /// Request a rollover with the scalars `drawn`.
    #[allow(non_snake_case)]
    pub fn request_rollover_with(
        self,
        old_parameters: &Parameters,
        new_parameters: &Parameters,
        transcript: ProofTranscript,
        drawn: &Randomness,
    ) -> (out: (AwaitingResponse, Request))
        ensures
            rollover_requested(
                self@,
                old_parameters@,
                new_parameters@,
                transcript@,
                drawn@,
                out.0@,
                out.1@,
            ),
            out.1.proof.responses@.len() == client_statement_spec().scalars.len(),
    {
        let B = base();
        let B_blinding = blinding_base();
        let tag = self.tag.randomize_with(&drawn.t);

        let w = Scalar::from_u64(self.w);
        let Com_w = commit(&tag.P, &w, &drawn.w_blinding);

        let r_Q_B = B.mul(&drawn.r_Q);
        let C_Q = tag.Q.add(&r_Q_B);
        let V = old_parameters.X_1.mul(&drawn.w_blinding).sub(&r_Q_B);

        let D = B.mul(&drawn.d);
        let Enc_w_B_0 = B.mul(&drawn.r_w);
        let Enc_w_B_1 = B.mul(&w.add(&drawn.r_w.mul(&drawn.d)));
        let Enc_n_prime_B_0 = B.mul(&drawn.r_n);
        let Enc_n_prime_B_1 = B.mul(&drawn.n_prime.add(&drawn.r_n.mul(&drawn.d)));
        proof {
            vstd::arithmetic::div_mod::lemma_add_mod_noop_right(
                w@ as int,
                (drawn.r_w@ * drawn.d@) as int,
                group_order() as int,
            );
            vstd::arithmetic::div_mod::lemma_add_mod_noop_right(
                drawn.n_prime@ as int,
                (drawn.r_n@ * drawn.d@) as int,
                group_order() as int,
            );
        }

        let mut transcript = transcript;
        let statement = client_statement();
        let scalars = vec![
            drawn.d,
            w,
            drawn.w_blinding,
            drawn.n_prime,
            drawn.r_Q.neg(),
            drawn.r_Q,
            drawn.r_w,
            drawn.r_n,
        ];
        let points = vec![
            D,
            Enc_w_B_0,
            Enc_w_B_1,
            Enc_n_prime_B_0,
            Enc_n_prime_B_1,
            tag.P,
            V,
            Com_w,
            B,
            B_blinding,
            old_parameters.X_1,
        ];
        let (made, encodings) = prove(&mut transcript, &statement, &scalars, &points);
        let request = Request {
            epoch: old_parameters.epoch,
            new_epoch: new_parameters.epoch,
            n: self.n,
            D: encodings[0],
            Enc_n_prime_B: Ciphertext(encodings[3], encodings[4]),
            Enc_w_B: Ciphertext(encodings[1], encodings[2]),
            Com_w: encodings[7],
            P: encodings[5],
            C_Q: C_Q.compress(),
            proof: made,
        };
        proof {
            assert(point_encodings(points@) =~= client_points(
                request@,
                client_blinded_value(old_parameters@.X_1, drawn@.w_blinding, drawn@.r_Q),
                old_parameters@.X_1,
            ));
        }
        let state = AwaitingResponse {
            old_parameters: *old_parameters,
            new_parameters: *new_parameters,
            transcript,
            w: self.w,
            n_prime: drawn.n_prime,
            d: drawn.d,
            D,
            Enc_w_B: Ciphertext(encodings[1], encodings[2]),
            Enc_n_prime_B: Ciphertext(encodings[3], encodings[4]),
        };
        (state, request)
    }
}

/// The state of `epoch` at the moment `unix_time`. An epoch whose
/// parameters give epochs no length is in no state that is accepted.
pub open spec fn state_at_moment(epoch: Epoch, unix_time: i64) -> EpochState {
    if epoch.spec_params().duration() > 0 {
        state_of_delta(
            epoch_index(unix_time as int, epoch.spec_params().duration()) - epoch.spec_index(),
        )
    } else {
        EpochState::Invalid
    }
}

/// Whether a wallet may be rolled over from an epoch in the state `state`:
/// the epoch must not have expired yet.
pub open spec fn old_epoch_accepted(state: EpochState) -> bool {
    state is Active || state is Primary || state is Rollover
}

/// Whether a wallet may be rolled over to an epoch in the state `state`:
/// the epoch must be in use.
pub open spec fn new_epoch_accepted(state: EpochState) -> bool {
    state is Active || state is Primary
}

/// Whether a wallet may be rolled over from an epoch in the state
/// `old_state` to an epoch in the state `new_state`.
pub open spec fn epoch_states_accepted(old_state: EpochState, new_state: EpochState) -> bool {
    old_epoch_accepted(old_state) && new_epoch_accepted(new_state)
}

/// Whether a wallet may be rolled over from an epoch in the state
/// `old_state` to an epoch in the state `new_state`.
pub fn rollover_epochs_accepted(old_state: EpochState, new_state: EpochState) -> (accepted: bool)
    ensures
        accepted == epoch_states_accepted(old_state, new_state),
{
    let old_accepted = match old_state {
        EpochState::Active | EpochState::Primary | EpochState::Rollover => true,
        EpochState::Invalid => false,
    };
    let new_accepted = match new_state {
        EpochState::Active | EpochState::Primary => true,
        EpochState::Rollover | EpochState::Invalid => false,
    };
    old_accepted && new_accepted
}

/// The issuer's verdict on a rollover request, from what its tests found,
/// in the order in which they are made: the old and the new epoch are in a
/// state in which a rollover is accepted, the nullifier is fresh, the points
/// that the issuer computes with decode, and the client's proof is accepted.
/// The first test that fails names the rejection.
pub open spec fn rollover_verdict_spec(
    epochs_accepted: bool,
    fresh: bool,
    decodes: bool,
    proof_accepted: bool,
) -> Result<(), Error> {
    if !epochs_accepted {
        Err(Error::EpochMismatch)
    } else if !fresh {
        Err(Error::NullifierReused)
    } else if !decodes {
        Err(Error::MalformedPoint)
    } else if !proof_accepted {
        Err(Error::ProofVerificationFailed)
    } else {
        Ok(())
    }
}

/// The issuer's verdict on a rollover request, from what its tests found.
pub fn rollover_verdict(
    epochs_accepted: bool,
    fresh: bool,
    decodes: bool,
    proof_accepted: bool,
) -> (verdict: Result<(), Error>)
    ensures
        verdict == rollover_verdict_spec(epochs_accepted, fresh, decodes, proof_accepted),
{
    if !epochs_accepted {
        Err(Error::EpochMismatch)
    } else if !fresh {
        Err(Error::NullifierReused)
    } else if !decodes {
        Err(Error::MalformedPoint)
    } else if !proof_accepted {
        Err(Error::ProofVerificationFailed)
    } else {
        Ok(())
    }
}

/// Whether the three points of a request that the issuer computes with
/// before it checks the client's proof are encodings of group elements.
pub open spec fn presented_decodes(request: RequestView) -> bool {
    &&& is_ristretto_encoding(request.Com_w)
    &&& is_ristretto_encoding(request.C_Q)
    &&& is_ristretto_encoding(request.P)
}

/// Whether the points of a request that the issuer answers with are
/// encodings of group elements.
pub open spec fn encrypted_decodes(request: RequestView) -> bool {
    &&& is_ristretto_encoding(request.D)
    &&& is_ristretto_encoding(request.Enc_w_B.0)
    &&& is_ristretto_encoding(request.Enc_w_B.1)
    &&& is_ristretto_encoding(request.Enc_n_prime_B.0)
    &&& is_ristretto_encoding(request.Enc_n_prime_B.1)
}

/// The points for which the issuer checks the client's proof: those of the
/// request, the blinded value that the issuer computes from them with the
/// old key, and the old key's `X_1`.
pub open spec fn checked_points(old_secrets: SecretsView, request: RequestView) -> Seq<Seq<u8>> {
    client_points(
        request,
        issuer_blinded_value(old_secrets, request),
        parameters_of(old_secrets).X_1,
    )
}

/// The entry that checking the client's proof leaves in a transcript.
pub open spec fn client_entry(
    old_secrets: SecretsView,
    request: RequestView,
    accepted: bool,
) -> Entry {
    Entry::Proof {
        statement: client_statement_spec(),
        points: checked_points(old_secrets, request),
        accepted,
    }
}

/// Whether `proof_accepted` is what checking the client's proof came to,
/// where it was checked: for a fresh nullifier and presented points that
/// decode, the proof is checked for [`checked_points`].
pub open spec fn client_proof_checked(
    old_secrets: SecretsView,
    request: RequestView,
    proof: CompactProof,
    fresh: bool,
    proof_accepted: bool,
) -> bool {
    fresh && presented_decodes(request) ==> proof_checked(
        client_statement_spec(),
        checked_points(old_secrets, request),
        proof,
        proof_accepted,
    )
}

/// What the issuer answers to `request` with the new key `new_secrets` and
/// the fresh scalars `b` and `r`.
///
/// With `P = b * B`, `t_1 = b * x'_1` and `t_2 = b * x'_2`, the response
/// carries `P`, `T_1 = b * X'_1`, `T_2 = b * X'_2`, and the encryption under
/// `D` of the new key's MAC on the encrypted balance and new nullifier:
///
/// ```text
/// Enc_Q_0 = r * B + t_1 * Enc_w_B_0 + t_2 * Enc_n_prime_B_0
/// Enc_Q_1 = r * D + x'_0 * P + t_1 * Enc_w_B_1 + t_2 * Enc_n_prime_B_1
/// ```
#[allow(non_snake_case)]
pub open spec fn rollover_response(
    new_secrets: SecretsView,
    request: RequestView,
    b: nat,
    r: nat,
) -> ResponseView {
    let P = ristretto_mul(b, basepoint());
    let t_1 = reduce(b * new_secrets.x_1);
    let t_2 = reduce(b * new_secrets.x_2);
    ResponseView {
        P,
        Enc_Q: (
            ristretto_multiscalar_mul(
                seq![r, t_1, t_2],
                seq![basepoint(), request.Enc_w_B.0, request.Enc_n_prime_B.0],
            ),
            ristretto_multiscalar_mul(
                seq![r, new_secrets.x_0, t_1, t_2],
                seq![request.D, P, request.Enc_w_B.1, request.Enc_n_prime_B.1],
            ),
        ),
        T_1: ristretto_mul(b, parameters_of(new_secrets).X_1),
        T_2: ristretto_mul(b, parameters_of(new_secrets).X_2),
    }
}

/// The entry that the issuer's proof leaves in a transcript.
pub open spec fn issuer_entry(
    old_secrets: SecretsView,
    new_secrets: SecretsView,
    request: RequestView,
    response: ResponseView,
) -> Entry {
    Entry::Proof {
        statement: issuer_statement_spec(),
        points: issuer_points(
            response,
            request.D,
            request.Enc_w_B,
            request.Enc_n_prime_B,
            parameters_of(old_secrets),
            parameters_of(new_secrets),
        ),
        accepted: true,
    }
}

/// The wallet that the client with the state `state` takes from an
/// accepted `response`: the balance of the wallet that was rolled over and
/// the new nullifier, in the epoch of the new parameters, with the tag
/// `(P, Enc_Q_1 - d * Enc_Q_0)`.
pub open spec fn rolled_over_wallet(
    state: AwaitingResponseView,
    response: ResponseView,
) -> WalletView {
    WalletView {
        epoch: state.new_parameters.epoch,
        balance: state.w as nat,
        nullifier: state.n_prime,
        tag: TagView {
            P: response.P,
            Q: ristretto_sub(response.Enc_Q.1, ristretto_mul(state.d, response.Enc_Q.0)),
        },
    }
}

/// What checking a rollover request whose epochs are accepted comes to,
/// when the oracle answers `fresh` and the proof system answers
/// `proof_accepted` to the client's proof `proof`, each where it is asked:
/// the verdict on these answers, and the transcript with an entry for the
/// proof if it was checked.
pub open spec fn rollover_checked(
    old_secrets: SecretsView,
    request: RequestView,
    proof: CompactProof,
    before: Seq<Entry>,
    fresh: bool,
    proof_accepted: bool,
    result: Result<(), Error>,
    after: Seq<Entry>,
) -> bool {
    &&& client_proof_checked(old_secrets, request, proof, fresh, proof_accepted)
    &&& result == rollover_verdict_spec(true, fresh, presented_decodes(request), proof_accepted)
    &&& after == (if !fresh || !presented_decodes(request) {
        before
    } else {
        before.push(client_entry(old_secrets, request, proof_accepted))
    })
}

/// What answering a rollover request whose epochs are accepted comes to,
/// when the oracle answers `fresh` and the proof system answers
/// `proof_accepted` to the client's proof `proof`, checked with the old
/// key, each where it is asked: the rejection that the verdict on these
/// answers names, or, where it names none, the response made with the new
/// key and two scalars.
pub open spec fn rollover_answered(
    old_secrets: SecretsView,
    new_secrets: SecretsView,
    request: RequestView,
    proof: CompactProof,
    fresh: bool,
    proof_accepted: bool,
    result: Result<Response, Error>,
) -> bool {
    let verdict = rollover_verdict_spec(true, fresh, presented_decodes(request), proof_accepted);
    &&& client_proof_checked(old_secrets, request, proof, fresh, proof_accepted)
    &&& match result {
        Ok(response) => {
            &&& verdict == Ok::<(), Error>(())
            &&& exists|b: nat, r: nat|
                response@ == #[trigger] rollover_response(new_secrets, request, b, r)
            &&& response.proof.responses@.len() == issuer_statement_spec().scalars.len()
        },
        Err(e) => verdict == Err::<(), Error>(e),
    }
}

/// Whether, at the moment `now`, both epochs of `request` are in a state
/// in which a rollover is accepted.
pub open spec fn epochs_accepted(request: RequestView, now: i64) -> bool {
    epoch_states_accepted(
        state_at_moment(request.epoch, now),
        state_at_moment(request.new_epoch, now),
    )
}

/// What answering `request` at the moment `now` comes to: the request is
/// rejected for its epochs without the oracle being asked, or the oracle
/// gave an answer and the result is what [`rollover_answered`] says of it.
pub open spec fn rollover_done<F: FnOnce([u8; 32]) -> bool>(
    request: Request,
    now: i64,
    old_secrets: SecretsView,
    new_secrets: SecretsView,
    check_and_update_nullifier: F,
    result: Result<Response, Error>,
) -> bool {
    if !epochs_accepted(request@, now) {
        result == Err::<Response, Error>(Error::EpochMismatch)
    } else {
        exists|fresh: bool, proof_accepted: bool|
            call_ensures(check_and_update_nullifier, (request.n.bytes(),), fresh)
                && #[trigger] rollover_answered(
                old_secrets,
                new_secrets,
                request@,
                request.proof,
                fresh,
                proof_accepted,
                result,
            )
    }
}

/// The state of `epoch` at the moment `unix_time`.
pub fn epoch_state_at(epoch: &Epoch, unix_time: i64) -> (state: EpochState)
    ensures
        state == state_at_moment(*epoch, unix_time),
{
    if epoch.params().seconds() == 0 {
        EpochState::Invalid
    } else {
        epoch.state_at(unix_time)
    }
}

impl Request {
    /// Rolls a wallet over in response to this request, at the present
    /// moment: [`Request::rollover_at`] with the time that the clock shows.
    ///
    /// Reading the clock panics when the system clock is set before 1970.
    /// An issuer that keeps its own time calls [`Request::rollover_at`],
    /// which reads no clock and does not panic.
    pub fn rollover<R: RngCore + CryptoRng, F: FnOnce([u8; 32]) -> bool>(
        &self,
        old_secret: Secrets,
        new_secret: Secrets,
        transcript: ProofTranscript,
        rng: R,
        check_and_update_nullifier: F,
    ) -> (result: Result<Response, Error>)
        requires
            call_requires(check_and_update_nullifier, (self.n.bytes(),)),
        ensures
            exists|now: i64| #[trigger]
                rollover_done(
                    *self,
                    now,
                    old_secret@,
                    new_secret@,
                    check_and_update_nullifier,
                    result,
                ),
    {
        let now = unix_time_now();
        let result = self.rollover_at(
            now,
            &old_secret,
            &new_secret,
            transcript,
            rng,
            check_and_update_nullifier,
        );
        assert(rollover_done(
            *self,
            now,
            old_secret@,
            new_secret@,
            check_and_update_nullifier,
            result,
        ));
        result
    }

    /// Rolls a wallet over in response to this request, at the moment `now`
    /// in seconds since the Unix epoch.
    ///
    /// The request is rejected unless its old epoch is active, primary or in
    /// rollover at that moment and its new epoch is active or primary. Then
    /// `check_and_update_nullifier` is asked, once, to mark the request's
    /// nullifier, and the request is rejected when the nullifier is not
    /// fresh. Then the request is rejected when a point that it presents does
    /// not decode, and when its proof is not accepted on `transcript` for the
    /// old key. Otherwise two scalars are drawn from `rng` and the response
    /// is made with them and the new key.
    pub fn rollover_at<R: RngCore + CryptoRng, F: FnOnce([u8; 32]) -> bool>(
        &self,
        now: i64,
        old_secret: &Secrets,
        new_secret: &Secrets,
        transcript: ProofTranscript,
        mut rng: R,
        check_and_update_nullifier: F,
    ) -> (result: Result<Response, Error>)
        requires
            call_requires(check_and_update_nullifier, (self.n.bytes(),)),
        ensures
            rollover_done(*self, now, old_secret@, new_secret@, check_and_update_nullifier, result),
    {
        let mut transcript = transcript;
        let ghost before = transcript@;
        let checked = self.check_rollover(
            now,
            old_secret,
            &mut transcript,
            check_and_update_nullifier,
        );
        let ghost (fresh, proof_accepted) = choose|fresh: bool, proof_accepted: bool|
            call_ensures(check_and_update_nullifier, (self.n.bytes(),), fresh)
                && #[trigger] rollover_checked(
                old_secret@,
                self@,
                self.proof,
                before,
                fresh,
                proof_accepted,
                checked,
                transcript@,
            );
        match checked {
            Ok(()) => {},
            Err(e) => {
                assert(epochs_accepted(self@, now) ==> rollover_answered(
                    old_secret@,
                    new_secret@,
                    self@,
                    self.proof,
                    fresh,
                    proof_accepted,
                    Err::<Response, Error>(e),
                ));
                return Err(e);
            },
        }
        let b = Scalar::random(&mut rng);
        let r = Scalar::random(&mut rng);
        let result = self.respond_to_rollover(old_secret, new_secret, &mut transcript, &b, &r);
        assert(result matches Ok(response) && response@ == rollover_response(
            new_secret@,
            self@,
            b@,
            r@,
        ));
        assert(rollover_answered(
            old_secret@,
            new_secret@,
            self@,
            self.proof,
            fresh,
            proof_accepted,
            result,
        ));
        result
    }

    /// Decide whether this request is answered at the moment `now`; see
    /// [`Request::rollover_at`]. The oracle is asked only where both epochs
    /// are accepted, and the proof is checked only for a fresh nullifier. A
    /// request that is answered presents and encrypts points that decode.
    #[allow(non_snake_case)]
    pub fn check_rollover<F: FnOnce([u8; 32]) -> bool>(
        &self,
        now: i64,
        old_secret: &Secrets,
        transcript: &mut ProofTranscript,
        check_and_update_nullifier: F,
    ) -> (result: Result<(), Error>)
        requires
            call_requires(check_and_update_nullifier, (self.n.bytes(),)),
        ensures
            !epochs_accepted(self@, now) ==> result == Err::<(), Error>(Error::EpochMismatch)
                && final(transcript)@ == old(transcript)@,
            epochs_accepted(self@, now) ==> exists|fresh: bool, proof_accepted: bool|
                call_ensures(check_and_update_nullifier, (self.n.bytes(),), fresh)
                    && #[trigger] rollover_checked(
                    old_secret@,
                    self@,
                    self.proof,
                    old(transcript)@,
                    fresh,
                    proof_accepted,
                    result,
                    final(transcript)@,
                ),
            result.is_ok() ==> encrypted_decodes(self@),
    {
        let old_state = epoch_state_at(&self.epoch, now);
        let new_state = epoch_state_at(&self.new_epoch, now);
        if !rollover_epochs_accepted(old_state, new_state) {
            return rollover_verdict(false, false, false, false);
        }
        let ghost before = transcript@;
        let fresh = check_and_update_nullifier(self.n.to_bytes());
        if !fresh {
            let verdict = rollover_verdict(true, false, false, false);
            assert(rollover_checked(
                old_secret@,
                self@,
                self.proof,
                before,
                false,
                false,
                verdict,
                before,
            ));
            return verdict;
        }
        let (Com_w, C_Q, P) = match (
            self.Com_w.decompress(),
            self.C_Q.decompress(),
            self.P.decompress(),
        ) {
            (Some(Com_w), Some(C_Q), Some(P)) => (Com_w, C_Q, P),
            _ => {
                let verdict = rollover_verdict(true, true, false, false);
                assert(rollover_checked(
                    old_secret@,
                    self@,
                    self.proof,
                    before,
                    true,
                    false,
                    verdict,
                    before,
                ));
                return verdict;
            },
        };
        let old_parameters = old_secret.parameters();
        let x_0_x_2_n = old_secret.inner.x_0.add(&old_secret.inner.x_2.mul(&self.n));
        proof {
            vstd::arithmetic::div_mod::lemma_add_mod_noop_right(
                old_secret@.x_0 as int,
                (old_secret@.x_2 * self@.n) as int,
                group_order() as int,
            );
        }
        let V = Point::combine2(&x_0_x_2_n, &P, &old_secret.inner.x_1, &Com_w).sub(&C_Q);

        let statement = client_statement();
        let points = vec![
            self.D,
            self.Enc_w_B.0,
            self.Enc_w_B.1,
            self.Enc_n_prime_B.0,
            self.Enc_n_prime_B.1,
            self.P,
            V.compress(),
            self.Com_w,
            base().compress(),
            blinding_base().compress(),
            old_parameters.X_1.compress(),
        ];
        assert(compressed_encodings(points@) =~= client_points(
            self@,
            issuer_blinded_value(old_secret@, self@),
            parameters_of(old_secret@).X_1,
        ));
        let proof_accepted = verify(transcript, &statement, &points, &self.proof);
        if proof_accepted {
            assert(encrypted_decodes(self@)) by {
                assert(points[0]@ == self.D@);
                assert(points[1]@ == self.Enc_w_B.0@);
                assert(points[2]@ == self.Enc_w_B.1@);
                assert(points[3]@ == self.Enc_n_prime_B.0@);
                assert(points[4]@ == self.Enc_n_prime_B.1@);
            }
        }
        let verdict = rollover_verdict(true, true, true, proof_accepted);
        assert(rollover_checked(
            old_secret@,
            self@,
            self.proof,
            before,
            true,
            proof_accepted,
            verdict,
            transcript@,
        ));
        verdict
    }

    /// Answer this request with the new key and the fresh scalars `b` and
    /// `r`, and prove on `transcript` that the answer was made with the new
    /// key, by the holder of the old one. The request is rejected, and the
    /// transcript left as it is, when one of the points that it encrypts to
    /// or with does not decode.
    #[allow(non_snake_case)]
    pub fn respond_to_rollover(
        &self,
        old_secret: &Secrets,
        new_secret: &Secrets,
        transcript: &mut ProofTranscript,
        b: &Scalar,
        r: &Scalar,
    ) -> (result: Result<Response, Error>)
        ensures
            match result {
                Ok(response) => {
                    &&& encrypted_decodes(self@)
                    &&& response@ == rollover_response(new_secret@, self@, b@, r@)
                    &&& response.proof.responses@.len() == issuer_statement_spec().scalars.len()
                    &&& final(transcript)@ == old(transcript)@.push(
                        issuer_entry(old_secret@, new_secret@, self@, response@),
                    )
                },
                Err(e) => {
                    &&& e == Error::MalformedPoint
                    &&& !encrypted_decodes(self@)
                    &&& final(transcript)@ == old(transcript)@
                },
            },
    {
        let B = base();
        let B_blinding = blinding_base();
        let old_parameters = old_secret.parameters();
        let new_parameters = new_secret.parameters();
        let (D, Enc_w_B_0, Enc_w_B_1, Enc_n_prime_B_0, Enc_n_prime_B_1) = match (
            self.D.decompress(),
            self.Enc_w_B.0.decompress(),
            self.Enc_w_B.1.decompress(),
            self.Enc_n_prime_B.0.decompress(),
            self.Enc_n_prime_B.1.decompress(),
        ) {
            (Some(D), Some(w_0), Some(w_1), Some(n_0), Some(n_1)) => (D, w_0, w_1, n_0, n_1),
            _ => {
                return Err(Error::MalformedPoint);
            },
        };
        let P = B.mul(b);
        let t_1 = b.mul(&new_secret.inner.x_1);
        let T_1 = new_parameters.X_1.mul(b);
        let t_2 = b.mul(&new_secret.inner.x_2);
        let T_2 = new_parameters.X_2.mul(b);
        let Enc_Q_0 = Point::combine3(r, &B, &t_1, &Enc_w_B_0, &t_2, &Enc_n_prime_B_0);
        let Enc_Q_1 = Point::combine4(
            r,
            &D,
            &new_secret.inner.x_0,
            &P,
            &t_1,
            &Enc_w_B_1,
            &t_2,
            &Enc_n_prime_B_1,
        );

        let statement = issuer_statement();
        let scalars = vec![
            *b,
            *r,
            old_secret.inner.x_0,
            old_secret.inner.x_1,
            old_secret.inner.x_2,
            old_secret.inner.x_0_blinding,
            new_secret.inner.x_0,
            new_secret.inner.x_1,
            new_secret.inner.x_2,
            new_secret.inner.x_0_blinding,
            t_1,
            t_2,
        ];
        let points = vec![
            P,
            D,
            Enc_w_B_0,
            Enc_w_B_1,
            Enc_n_prime_B_0,
            Enc_n_prime_B_1,
            Enc_Q_0,
            Enc_Q_1,
            T_1,
            T_1,
            T_2,
            T_2,
            old_parameters.X_0,
            old_parameters.X_1,
            old_parameters.X_2,
            new_parameters.X_0,
            new_parameters.X_1,
            new_parameters.X_2,
            B,
            B_blinding,
        ];
        let (made, encodings) = prove(transcript, &statement, &scalars, &points);
        let response = Response {
            P: encodings[0],
            Enc_Q: Ciphertext(encodings[6], encodings[7]),
            T_1: encodings[8],
            T_2: encodings[10],
            proof: made,
        };
        proof {
            assert(point_encodings(points@) =~= issuer_points(
                response@,
                self@.D,
                self@.Enc_w_B,
                self@.Enc_n_prime_B,
                parameters_of(old_secret@),
                parameters_of(new_secret@),
            ));
        }
        Ok(response)
    }
}

/// The entry that checking the issuer's proof leaves in the client's
/// transcript: the proof is checked for the points of the response and what
/// the client sent and was given.
pub open spec fn response_entry(
    state: AwaitingResponseView,
    response: ResponseView,
    accepted: bool,
) -> Entry {
    Entry::Proof {
        statement: issuer_statement_spec(),
        points: response_points(state, response),
        accepted,
    }
}

/// The points for which the client checks the issuer's proof.
pub open spec fn response_points(
    state: AwaitingResponseView,
    response: ResponseView,
) -> Seq<Seq<u8>> {
    issuer_points(
        response,
        state.D,
        state.Enc_w_B,
        state.Enc_n_prime_B,
        state.old_parameters,
        state.new_parameters,
    )
}

/// What the client's check of `response` comes to: a response whose point
/// `P` does not decode is rejected; of any other, the issuer's proof is
/// checked, and the response is accepted if and only if the proof is.
pub open spec fn response_checked(
    state: AwaitingResponseView,
    response: Response,
    accepted: bool,
) -> bool {
    if !is_ristretto_encoding(response@.P) {
        !accepted
    } else {
        proof_checked(
            issuer_statement_spec(),
            response_points(state, response@),
            response.proof,
            accepted,
        )
    }
}

/// The client's state after it has checked `response`: the state before,
/// with an entry for the check in its transcript if the point `P` of the
/// response decoded.
pub open spec fn after_check(
    state: AwaitingResponseView,
    response: ResponseView,
    accepted: bool,
) -> AwaitingResponseView {
    if is_ristretto_encoding(response.P) {
        AwaitingResponseView {
            transcript: state.transcript.push(response_entry(state, response, accepted)),
            ..state
        }
    } else {
        state
    }
}

impl AwaitingResponse {
    /// Check a rollover response. It is rejected when its point `P` does not
    /// decode. Otherwise the issuer's proof is checked on the transcript that the
    /// request was made on, for the old and the new public parameters that the
    /// request was made for, and the response is accepted if and only if the
    /// proof is: that is for the proof system to say, unless one of the points is
    /// the identity. A response that is accepted carries points that decode.
    #[allow(non_snake_case)]
    pub fn check_response(&mut self, response: &Response) -> (result: Result<(), Error>)
        ensures
            match result {
                Ok(()) => {
                    &&& is_ristretto_encoding(response@.P)
                    &&& is_ristretto_encoding(response@.Enc_Q.0)
                    &&& is_ristretto_encoding(response@.Enc_Q.1)
                },
                Err(e) => e == (if !is_ristretto_encoding(response@.P) {
                    Error::MalformedPoint
                } else {
                    Error::ProofVerificationFailed
                }),
            },
            response_checked(old(self)@, *response, result.is_ok()),
            final(self)@ == after_check(old(self)@, response@, result.is_ok()),
    {
        if response.P.decompress().is_none() {
            return Err(Error::MalformedPoint);
        }
        let statement = issuer_statement();
        let points = vec![
            response.P,
            self.D.compress(),
            self.Enc_w_B.0,
            self.Enc_w_B.1,
            self.Enc_n_prime_B.0,
            self.Enc_n_prime_B.1,
            response.Enc_Q.0,
            response.Enc_Q.1,
            response.T_1,
            response.T_1,
            response.T_2,
            response.T_2,
            self.old_parameters.X_0.compress(),
            self.old_parameters.X_1.compress(),
            self.old_parameters.X_2.compress(),
            self.new_parameters.X_0.compress(),
            self.new_parameters.X_1.compress(),
            self.new_parameters.X_2.compress(),
            base().compress(),
            blinding_base().compress(),
        ];
        assert(compressed_encodings(points@) =~= issuer_points(
            response@,
            self@.D,
            self@.Enc_w_B,
            self@.Enc_n_prime_B,
            self@.old_parameters,
            self@.new_parameters,
        ));
        if !verify(&mut self.transcript, &statement, &points, &response.proof) {
            return Err(Error::ProofVerificationFailed);
        }
        assert(is_ristretto_encoding(response.Enc_Q.0@) && is_ristretto_encoding(
            response.Enc_Q.1@,
        )) by {
            assert(points[6]@ == response.Enc_Q.0@);
            assert(points[7]@ == response.Enc_Q.1@);
        }
        Ok(())
    }

    /// Verify a rollover response and obtain the new wallet credential.
    ///
    /// The response is rejected when its point `P` does not decode, and when
    /// its proof is not accepted on the transcript that the request was made
    /// on, for the old and the new public parameters that the request was
    /// made for.
    #[allow(non_snake_case)]
    pub fn verify_response(self, response: Response) -> (result: Result<Wallet, Error>)
        ensures
            match result {
                Ok(wallet) => {
                    &&& wallet@ == rolled_over_wallet(self@, response@)
                    &&& is_ristretto_encoding(response@.P)
                    &&& is_ristretto_encoding(response@.Enc_Q.0)
                    &&& is_ristretto_encoding(response@.Enc_Q.1)
                },
                Err(e) => e == (if !is_ristretto_encoding(response@.P) {
                    Error::MalformedPoint
                } else {
                    Error::ProofVerificationFailed
                }),
            },
            !is_ristretto_encoding(response@.P) ==> result == Err::<Wallet, Error>(
                Error::MalformedPoint,
            ),
            response_checked(self@, response, result.is_ok()),
    {
        let mut state = self;
        match state.check_response(&response) {
            Ok(()) => {},
            Err(e) => {
                return Err(e);
            },
        }
        let (P, Enc_Q_0, Enc_Q_1) = match (
            response.P.decompress(),
            response.Enc_Q.0.decompress(),
            response.Enc_Q.1.decompress(),
        ) {
            (Some(P), Some(Enc_Q_0), Some(Enc_Q_1)) => (P, Enc_Q_0, Enc_Q_1),
            _ => {
                return Err(Error::MalformedPoint);
            },
        };
        let Q = Enc_Q_1.sub(&Enc_Q_0.mul(&state.d));
        Ok(
            Wallet {
                epoch: state.new_parameters.epoch,
                tag: Tag { P, Q },
                n: state.n_prime,
                w: state.w,
            },
        )
    }
}

/// `Utc::now` and `DateTime::timestamp` of `chrono`: the seconds since the
/// Unix epoch that the system clock shows. Nothing is claimed of them.
/// `Utc::now` panics when the system clock is set before 1970, which no
/// caller can rule out beforehand.
#[verifier::external_body]
fn unix_time_now() -> (seconds: i64) {
    chrono::Utc::now().timestamp()
}

/// Rollover keeps the balance: a wallet taken from a response to a request
/// to roll a wallet over holds the balance of that wallet, in the epoch of
/// the new parameters, with the nullifier that the client drew, which is
/// another than the old one as soon as the drawn scalar is.
pub proof fn rollover_keeps_balance(
    wallet: WalletView,
    old_parameters: ParametersView,
    new_parameters: ParametersView,
    before: Seq<Entry>,
    drawn: RandomnessView,
    state: AwaitingResponseView,
    request: RequestView,
    response: ResponseView,
)
    requires
        rollover_requested(wallet, old_parameters, new_parameters, before, drawn, state, request),
    ensures
        rolled_over_wallet(state, response).balance == wallet.balance,
        rolled_over_wallet(state, response).epoch == new_parameters.epoch,
        rolled_over_wallet(state, response).nullifier == drawn.n_prime,
        drawn.n_prime != wallet.nullifier ==> rolled_over_wallet(state, response).nullifier
            != wallet.nullifier,
        request.n == wallet.nullifier,
{
}

/// The issuer checks a rollover request as it was made: if the group
/// operations are those of a group, and the wallet carries the old key's MAC
/// on its balance and its nullifier, then the issuer checks the client's
/// proof for the very points that the client made it for. On transcripts
/// with one history, the client's after its request and the issuer's after
/// its check have one history again.
pub proof fn rollover_request_is_checked_as_made(
    old_secrets: SecretsView,
    wallet: WalletView,
    new_parameters: ParametersView,
    before: Seq<Entry>,
    drawn: RandomnessView,
    state: AwaitingResponseView,
    request: RequestView,
)
    requires
        group_laws(),
        is_ristretto_encoding(basepoint()),
        is_ristretto_encoding(blinding_basepoint()),
        attests(old_secrets, wallet.tag, wallet.balance, wallet.nullifier),
        rollover_requested(
            wallet,
            parameters_of(old_secrets),
            new_parameters,
            before,
            drawn,
            state,
            request,
        ),
    ensures
        state.transcript == before.push(client_entry(old_secrets, request, true)),
{
    lemma_blinded_values_agree(
        old_secrets,
        wallet.tag,
        wallet.balance,
        wallet.nullifier,
        drawn.t,
        drawn.w_blinding,
        drawn.r_Q,
    );
}

/// Rollover is correct: if the group operations are those of a group, the
/// wallet that the client takes from the issuer's answer to its request
/// carries the new key's MAC on the balance of the wallet that was rolled
/// over and the new nullifier.
pub proof fn rollover_yields_mac(
    new_secrets: SecretsView,
    wallet: WalletView,
    old_parameters: ParametersView,
    new_parameters: ParametersView,
    before: Seq<Entry>,
    drawn: RandomnessView,
    state: AwaitingResponseView,
    request: RequestView,
    b: nat,
    r: nat,
)
    requires
        group_laws(),
        is_ristretto_encoding(basepoint()),
        rollover_requested(wallet, old_parameters, new_parameters, before, drawn, state, request),
    ensures
        attests(
            new_secrets,
            rolled_over_wallet(state, rollover_response(new_secrets, request, b, r)).tag,
            wallet.balance,
            drawn.n_prime,
        ),
{
    lemma_decrypts_to_mac(
        new_secrets,
        b,
        r,
        drawn.d,
        wallet.balance,
        drawn.r_w,
        drawn.n_prime,
        drawn.r_n,
    );
}

/// The client checks a rollover response as it was made: the client that
/// asked the issuer with the keys `old_secrets` and `new_secrets`, for the
/// parameters of these keys, checks the issuer's proof for the very points
/// that the issuer made it for.
pub proof fn rollover_response_is_checked_as_made(
    old_secrets: SecretsView,
    new_secrets: SecretsView,
    wallet: WalletView,
    before: Seq<Entry>,
    drawn: RandomnessView,
    state: AwaitingResponseView,
    request: RequestView,
    response: ResponseView,
)
    requires
        rollover_requested(
            wallet,
            parameters_of(old_secrets),
            parameters_of(new_secrets),
            before,
            drawn,
            state,
            request,
        ),
    ensures
        response_entry(state, response, true) == issuer_entry(
            old_secrets,
            new_secrets,
            request,
            response,
        ),
{
}

} // verus!
