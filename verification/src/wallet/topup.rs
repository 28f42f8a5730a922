//! Topup protocol states and messages.
//!
//! The client presents a wallet and asks for a new one whose balance is
//! larger by a public amount `c`. The issuer learns `c` and the spent
//! nullifier, and neither the old nor the new balance.

use crate::algebra::{group_laws, lemma_mul_closed};
use crate::constants::{base, basepoint, blinding_base, blinding_basepoint};
use crate::epoch::Epoch;
use crate::error::Error;
use crate::point::{
    compressed_encodings, is_ristretto_encoding, point_encodings, ristretto_add, ristretto_mul,
    ristretto_multiscalar_mul, ristretto_sub, Ciphertext, CompressedPoint, Point,
};
use crate::range::{
    commit, commitment, prove_range, verify_range, RangeProof, BALANCE_BITS,
};
use crate::scalar::{group_order, reduce, Scalar};
use crate::statement::{
    proof_checked, prove, relation, term, verify, CompactProof, RelationView, Statement,
    StatementView,
};
use crate::tag::{randomized, Tag, TagView};
use crate::transcript::{Entry, ProofTranscript};
use crate::wallet::keys::{parameters_of, Parameters, ParametersView, Secrets, SecretsView};
use crate::wallet::mac::{
    attests, lemma_blinded_values_agree, lemma_commitments_agree, lemma_decrypts_to_mac,
};
use crate::wallet::{lemma_labels_fit, Randomness, RandomnessView, Wallet, WalletView};
use rand_core::{CryptoRng, RngCore};
use vstd::prelude::*;

verus! {

/// What the client proves of its request: it knows `d`, `w`, `w_prime`,
/// `w_blinding`, `n_prime`, `minus_r_Q`, `r_w` and `r_n` with
///
/// ```text
/// D               = d * B
/// Enc_n_prime_B_0 = r_n * B
/// Enc_n_prime_B_1 = n_prime * B + r_n * D
/// Enc_w_prime_B_0 = r_w * B
/// Enc_w_prime_B_1 = w_prime * B + r_w * D
/// Com_w           = w * P + w_blinding * B_blinding
/// Com_w_prime     = w_prime * P + w_blinding * B_blinding
/// V               = w_blinding * X_1 + minus_r_Q * B
/// ```
#[allow(non_snake_case)]
pub open spec fn client_statement_spec() -> StatementView {
    let d = 0int;
    let w = 1int;
    let w_prime = 2int;
    let w_blinding = 3int;
    let n_prime = 4int;
    let minus_r_Q = 5int;
    let r_w = 6int;
    let r_n = 7int;
    let D = 0int;
    let Enc_w_prime_B_0 = 1int;
    let Enc_w_prime_B_1 = 2int;
    let Enc_n_prime_B_0 = 3int;
    let Enc_n_prime_B_1 = 4int;
    let P = 5int;
    let V = 6int;
    let Com_w = 7int;
    let Com_w_prime = 8int;
    let B = 9int;
    let B_blinding = 10int;
    let X_1 = 11int;
    StatementView {
        label: "wallet::topup::client"@,
        scalars: seq![
            "d"@, "w"@, "w_prime"@, "w_blinding"@, "n_prime"@, "minus_r_Q"@, "r_w"@, "r_n"@,
        ],
        points: seq![
            "D"@, "Enc_w_prime_B_0"@, "Enc_w_prime_B_1"@, "Enc_n_prime_B_0"@, "Enc_n_prime_B_1"@,
            "P"@, "V"@, "Com_w"@, "Com_w_prime"@, "B"@, "B_blinding"@, "X_1"@,
        ],
        relations: seq![
            RelationView { lhs: D, terms: seq![(d, B)] },
            RelationView { lhs: Enc_n_prime_B_0, terms: seq![(r_n, B)] },
            RelationView { lhs: Enc_n_prime_B_1, terms: seq![(n_prime, B), (r_n, D)] },
            RelationView { lhs: Enc_w_prime_B_0, terms: seq![(r_w, B)] },
            RelationView { lhs: Enc_w_prime_B_1, terms: seq![(w_prime, B), (r_w, D)] },
            RelationView { lhs: Com_w, terms: seq![(w, P), (w_blinding, B_blinding)] },
            RelationView { lhs: Com_w_prime, terms: seq![(w_prime, P), (w_blinding, B_blinding)] },
            RelationView { lhs: V, terms: seq![(w_blinding, X_1), (minus_r_Q, B)] },
        ],
    }
}

/// The statement that the client proves of its request.
#[allow(non_snake_case)]
#[allow(unused_variables)]
pub fn client_statement() -> (statement: Statement)
    ensures
        statement@ == client_statement_spec(),
        statement@.well_formed(),
{
    let d: usize = 0;
    let w: usize = 1;
    let w_prime: usize = 2;
    let w_blinding: usize = 3;
    let n_prime: usize = 4;
    let minus_r_Q: usize = 5;
    let r_w: usize = 6;
    let r_n: usize = 7;
    let D: usize = 0;
    let Enc_w_prime_B_0: usize = 1;
    let Enc_w_prime_B_1: usize = 2;
    let Enc_n_prime_B_0: usize = 3;
    let Enc_n_prime_B_1: usize = 4;
    let P: usize = 5;
    let V: usize = 6;
    let Com_w: usize = 7;
    let Com_w_prime: usize = 8;
    let B: usize = 9;
    let B_blinding: usize = 10;
    let X_1: usize = 11;
    let statement = Statement {
        label: "wallet::topup::client",
        scalars: vec!["d", "w", "w_prime", "w_blinding", "n_prime", "minus_r_Q", "r_w", "r_n"],
        points: vec![
            "D", "Enc_w_prime_B_0", "Enc_w_prime_B_1", "Enc_n_prime_B_0", "Enc_n_prime_B_1", "P",
            "V", "Com_w", "Com_w_prime", "B", "B_blinding", "X_1",
        ],
        relations: vec![
            relation(D, vec![term(d, B)]),
            relation(Enc_n_prime_B_0, vec![term(r_n, B)]),
            relation(Enc_n_prime_B_1, vec![term(n_prime, B), term(r_n, D)]),
            relation(Enc_w_prime_B_0, vec![term(r_w, B)]),
            relation(Enc_w_prime_B_1, vec![term(w_prime, B), term(r_w, D)]),
            relation(Com_w, vec![term(w, P), term(w_blinding, B_blinding)]),
            relation(Com_w_prime, vec![term(w_prime, P), term(w_blinding, B_blinding)]),
            relation(V, vec![term(w_blinding, X_1), term(minus_r_Q, B)]),
        ],
    };
    proof {
        let spec = client_statement_spec();
        assert(statement@.scalars =~= spec.scalars);
        assert(statement@.points =~= spec.points);
        assert(statement@.relations[0].terms =~= spec.relations[0].terms);
        assert(statement@.relations[1].terms =~= spec.relations[1].terms);
        assert(statement@.relations[2].terms =~= spec.relations[2].terms);
        assert(statement@.relations[3].terms =~= spec.relations[3].terms);
        assert(statement@.relations[4].terms =~= spec.relations[4].terms);
        assert(statement@.relations[5].terms =~= spec.relations[5].terms);
        assert(statement@.relations[6].terms =~= spec.relations[6].terms);
        assert(statement@.relations[7].terms =~= spec.relations[7].terms);
        assert(statement@.relations =~= spec.relations);
        lemma_client_statement_well_formed();
    }
    statement
}

/// The client's statement is well formed.
proof fn lemma_client_statement_well_formed()
    ensures
        client_statement_spec().well_formed(),
{
    lemma_labels_fit();
}

/// What the issuer proves of its response: it knows `b`, `r`, `x_0`, `x_1`,
/// `x_2`, `x_0_blinding`, `t_1` and `t_2` with
///
/// ```text
/// X_0     = x_0 * B + x_0_blinding * B_blinding
/// X_1     = x_1 * B_blinding
/// X_2     = x_2 * B_blinding
/// P       = b * B
/// T_1_a   = b * X_1
/// T_1_b   = t_1 * B_blinding
/// T_2_a   = b * X_2
/// T_2_b   = t_2 * B_blinding
/// Enc_Q_0 = r * B + t_1 * Enc_w_prime_B_0 + t_2 * Enc_n_prime_B_0
/// Enc_Q_1 = x_0 * P + r * D + t_1 * Enc_w_prime_B_1 + t_2 * Enc_n_prime_B_1
/// ```
#[allow(non_snake_case)]
pub open spec fn issuer_statement_spec() -> StatementView {
    let b = 0int;
    let r = 1int;
    let x_0 = 2int;
    let x_1 = 3int;
    let x_2 = 4int;
    let x_0_blinding = 5int;
    let t_1 = 6int;
    let t_2 = 7int;
    let P = 0int;
    let D = 1int;
    let Enc_w_prime_B_0 = 2int;
    let Enc_w_prime_B_1 = 3int;
    let Enc_n_prime_B_0 = 4int;
    let Enc_n_prime_B_1 = 5int;
    let Enc_Q_0 = 6int;
    let Enc_Q_1 = 7int;
    let T_1_a = 8int;
    let T_1_b = 9int;
    let T_2_a = 10int;
    let T_2_b = 11int;
    let X_0 = 12int;
    let X_1 = 13int;
    let X_2 = 14int;
    let B = 15int;
    let B_blinding = 16int;
    StatementView {
        label: "wallet::topup::issuer"@,
        scalars: seq!["b"@, "r"@, "x_0"@, "x_1"@, "x_2"@, "x_0_blinding"@, "t_1"@, "t_2"@],
        points: seq![
            "P"@, "D"@, "Enc_w_prime_B_0"@, "Enc_w_prime_B_1"@, "Enc_n_prime_B_0"@,
            "Enc_n_prime_B_1"@, "Enc_Q_0"@, "Enc_Q_1"@, "T_1_a"@, "T_1_b"@, "T_2_a"@, "T_2_b"@,
            "X_0"@, "X_1"@, "X_2"@, "B"@, "B_blinding"@,
        ],
        relations: seq![
            RelationView { lhs: X_0, terms: seq![(x_0, B), (x_0_blinding, B_blinding)] },
            RelationView { lhs: X_1, terms: seq![(x_1, B_blinding)] },
            RelationView { lhs: X_2, terms: seq![(x_2, B_blinding)] },
            RelationView { lhs: P, terms: seq![(b, B)] },
            RelationView { lhs: T_1_a, terms: seq![(b, X_1)] },
            RelationView { lhs: T_1_b, terms: seq![(t_1, B_blinding)] },
            RelationView { lhs: T_2_a, terms: seq![(b, X_2)] },
            RelationView { lhs: T_2_b, terms: seq![(t_2, B_blinding)] },
            RelationView { lhs: Enc_Q_0, terms: seq![
                (r, B), (t_1, Enc_w_prime_B_0), (t_2, Enc_n_prime_B_0),
            ] },
            RelationView { lhs: Enc_Q_1, terms: seq![
                (x_0, P), (r, D), (t_1, Enc_w_prime_B_1), (t_2, Enc_n_prime_B_1),
            ] },
        ],
    }
}

/// The statement that the issuer proves of its response.
#[allow(non_snake_case)]
#[allow(unused_variables)]
pub fn issuer_statement() -> (statement: Statement)
    ensures
        statement@ == issuer_statement_spec(),
        statement@.well_formed(),
{
    let b: usize = 0;
    let r: usize = 1;
    let x_0: usize = 2;
    let x_1: usize = 3;
    let x_2: usize = 4;
    let x_0_blinding: usize = 5;
    let t_1: usize = 6;
    let t_2: usize = 7;
    let P: usize = 0;
    let D: usize = 1;
    let Enc_w_prime_B_0: usize = 2;
    let Enc_w_prime_B_1: usize = 3;
    let Enc_n_prime_B_0: usize = 4;
    let Enc_n_prime_B_1: usize = 5;
    let Enc_Q_0: usize = 6;
    let Enc_Q_1: usize = 7;
    let T_1_a: usize = 8;
    let T_1_b: usize = 9;
    let T_2_a: usize = 10;
    let T_2_b: usize = 11;
    let X_0: usize = 12;
    let X_1: usize = 13;
    let X_2: usize = 14;
    let B: usize = 15;
    let B_blinding: usize = 16;
    let statement = Statement {
        label: "wallet::topup::issuer",
        scalars: vec!["b", "r", "x_0", "x_1", "x_2", "x_0_blinding", "t_1", "t_2"],
        points: vec![
            "P", "D", "Enc_w_prime_B_0", "Enc_w_prime_B_1", "Enc_n_prime_B_0", "Enc_n_prime_B_1",
            "Enc_Q_0", "Enc_Q_1", "T_1_a", "T_1_b", "T_2_a", "T_2_b", "X_0", "X_1", "X_2", "B",
            "B_blinding",
        ],
        relations: vec![
            relation(X_0, vec![term(x_0, B), term(x_0_blinding, B_blinding)]),
            relation(X_1, vec![term(x_1, B_blinding)]),
            relation(X_2, vec![term(x_2, B_blinding)]),
            relation(P, vec![term(b, B)]),
            relation(T_1_a, vec![term(b, X_1)]),
            relation(T_1_b, vec![term(t_1, B_blinding)]),
            relation(T_2_a, vec![term(b, X_2)]),
            relation(T_2_b, vec![term(t_2, B_blinding)]),
            relation(Enc_Q_0, vec![
                term(r, B), term(t_1, Enc_w_prime_B_0), term(t_2, Enc_n_prime_B_0),
            ]),
            relation(Enc_Q_1, vec![
                term(x_0, P), term(r, D), term(t_1, Enc_w_prime_B_1), term(t_2, Enc_n_prime_B_1),
            ]),
        ],
    };
    proof {
        let spec = issuer_statement_spec();
        assert(statement@.scalars =~= spec.scalars);
        assert(statement@.points =~= spec.points);
        assert(statement@.relations[0].terms =~= spec.relations[0].terms);
        assert(statement@.relations[1].terms =~= spec.relations[1].terms);
        assert(statement@.relations[2].terms =~= spec.relations[2].terms);
        assert(statement@.relations[3].terms =~= spec.relations[3].terms);
        assert(statement@.relations[4].terms =~= spec.relations[4].terms);
        assert(statement@.relations[5].terms =~= spec.relations[5].terms);
        assert(statement@.relations[6].terms =~= spec.relations[6].terms);
        assert(statement@.relations[7].terms =~= spec.relations[7].terms);
        assert(statement@.relations[8].terms =~= spec.relations[8].terms);
        assert(statement@.relations[9].terms =~= spec.relations[9].terms);
        assert(statement@.relations =~= spec.relations);
        lemma_issuer_statement_well_formed();
    }
    statement
}

/// The issuer's statement is well formed.
proof fn lemma_issuer_statement_well_formed()
    ensures
        issuer_statement_spec().well_formed(),
{
    lemma_labels_fit();
}

/// A request for wallet topup.
#[allow(non_snake_case)]
#[derive(Clone, Debug)]
pub struct Request {
    pub epoch: Epoch,
    pub c: u64,
    pub n: Scalar,
    pub D: CompressedPoint,
    pub Enc_n_prime_B: Ciphertext,
    pub Enc_w_prime_B: Ciphertext,
    pub Com_w: CompressedPoint,
    pub P: CompressedPoint,
    pub C_Q: CompressedPoint,
    pub proof: CompactProof,
    pub range_proof: RangeProof,
}

/// State held by the client while awaiting a topup response.
#[allow(non_snake_case)]
pub struct AwaitingResponse {
    pub(crate) parameters: Parameters,
    pub(crate) transcript: ProofTranscript,
    pub(crate) w_prime: u64,
    pub(crate) n_prime: Scalar,
    pub(crate) d: Scalar,
    pub(crate) w_blinding: Scalar,
    pub(crate) D: Point,
    pub(crate) Enc_w_prime_B: Ciphertext,
    pub(crate) Enc_n_prime_B: Ciphertext,
}

/// A response to a topup request.
#[allow(non_snake_case)]
#[derive(Clone, Debug)]
pub struct Response {
    pub P: CompressedPoint,
    pub Enc_Q: Ciphertext,
    pub T_1: CompressedPoint,
    pub T_2: CompressedPoint,
    pub proof: CompactProof,
}

/// A topup request as a value of the logic, without its proofs.
#[allow(non_snake_case)]
pub struct RequestView {
    pub epoch: Epoch,
    pub c: u64,
    pub n: nat,
    pub D: Seq<u8>,
    pub Enc_n_prime_B: (Seq<u8>, Seq<u8>),
    pub Enc_w_prime_B: (Seq<u8>, Seq<u8>),
    pub Com_w: Seq<u8>,
    pub P: Seq<u8>,
    pub C_Q: Seq<u8>,
}

/// The client's state as a value of the logic.
#[allow(non_snake_case)]
pub struct AwaitingResponseView {
    pub parameters: ParametersView,
    pub transcript: Seq<Entry>,
    pub w_prime: u64,
    pub n_prime: nat,
    pub d: nat,
    pub w_blinding: nat,
    pub D: Seq<u8>,
    pub Enc_w_prime_B: (Seq<u8>, Seq<u8>),
    pub Enc_n_prime_B: (Seq<u8>, Seq<u8>),
}

/// A topup response as a value of the logic, without its proof.
#[allow(non_snake_case)]
pub struct ResponseView {
    pub P: Seq<u8>,
    pub Enc_Q: (Seq<u8>, Seq<u8>),
    pub T_1: Seq<u8>,
    pub T_2: Seq<u8>,
}

impl Request {
    pub open spec fn view(self) -> RequestView {
        RequestView {
            epoch: self.epoch,
            c: self.c,
            n: self.n@,
            D: self.D@,
            Enc_n_prime_B: self.Enc_n_prime_B@,
            Enc_w_prime_B: self.Enc_w_prime_B@,
            Com_w: self.Com_w@,
            P: self.P@,
            C_Q: self.C_Q@,
        }
    }
}

impl AwaitingResponse {
    pub open(crate) spec fn view(self) -> AwaitingResponseView {
        AwaitingResponseView {
            parameters: self.parameters@,
            transcript: self.transcript@,
            w_prime: self.w_prime,
            n_prime: self.n_prime@,
            d: self.d@,
            w_blinding: self.w_blinding@,
            D: self.D@,
            Enc_w_prime_B: self.Enc_w_prime_B@,
            Enc_n_prime_B: self.Enc_n_prime_B@,
        }
    }
}

impl Response {
    pub open spec fn view(self) -> ResponseView {
        ResponseView { P: self.P@, Enc_Q: self.Enc_Q@, T_1: self.T_1@, T_2: self.T_2@ }
    }
}

/// The points that the client's proof speaks of, in the order of the
/// client's statement: those of the request, the blinded value `V`, the
/// commitment to the new balance, and the issuer's `X_1`.
#[allow(non_snake_case)]
pub open spec fn client_points(
    request: RequestView,
    V: Seq<u8>,
    Com_w_prime: Seq<u8>,
    X_1: Seq<u8>,
) -> Seq<Seq<u8>> {
    seq![
        request.D,
        request.Enc_w_prime_B.0,
        request.Enc_w_prime_B.1,
        request.Enc_n_prime_B.0,
        request.Enc_n_prime_B.1,
        request.P,
        V,
        request.Com_w,
        Com_w_prime,
        basepoint(),
        blinding_basepoint(),
        X_1,
    ]
}

/// The points that the issuer's proof speaks of, in the order of the
/// issuer's statement.
#[allow(non_snake_case)]
pub open spec fn issuer_points(
    response: ResponseView,
    D: Seq<u8>,
    Enc_w_prime_B: (Seq<u8>, Seq<u8>),
    Enc_n_prime_B: (Seq<u8>, Seq<u8>),
    parameters: ParametersView,
) -> Seq<Seq<u8>> {
    seq![
        response.P,
        D,
        Enc_w_prime_B.0,
        Enc_w_prime_B.1,
        Enc_n_prime_B.0,
        Enc_n_prime_B.1,
        response.Enc_Q.0,
        response.Enc_Q.1,
        response.T_1,
        response.T_1,
        response.T_2,
        response.T_2,
        parameters.X_0,
        parameters.X_1,
        parameters.X_2,
        basepoint(),
        blinding_basepoint(),
    ]
}

/// The blinded value `V = w_blinding * X_1 - r_Q * B` as the client
/// computes it.
#[allow(non_snake_case)]
pub open spec fn client_blinded_value(X_1: Seq<u8>, w_blinding: nat, r_Q: nat) -> Seq<u8> {
    ristretto_sub(ristretto_mul(w_blinding, X_1), ristretto_mul(r_Q, basepoint()))
}

/// The blinded value `V = (x_0 + x_2 * n) * P + x_1 * Com_w - C_Q` as the
/// issuer computes it from what the client presents.
#[allow(non_snake_case)]
pub open spec fn issuer_blinded_value(
    secrets: SecretsView,
    n: nat,
    P: Seq<u8>,
    Com_w: Seq<u8>,
    C_Q: Seq<u8>,
) -> Seq<u8> {
    ristretto_sub(
        ristretto_multiscalar_mul(
            seq![reduce(secrets.x_0 + secrets.x_2 * n), secrets.x_1],
            seq![P, Com_w],
        ),
        C_Q,
    )
}

/// What a request to top up `wallet` by `c` is, made with the scalars
/// `drawn` on a transcript with the history `before`: the request and the
/// state that the client keeps.
///
/// The wallet's tag `(P, Q)` is rerandomized with `t`. The request carries
/// `P`, the commitment `Com_w = w * P + w_blinding * B_blinding` to the old
/// balance, the blinded `C_Q = Q + r_Q * B`, `D = d * B`, and encryptions
/// under `D` of `w' * B` and `n' * B` for the new balance `w' = w + c` and
/// the new nullifier `n'`. The commitment to the new balance has the same
/// blinding as `Com_w`, so that it is `Com_w + c * P`.
#[allow(non_snake_case)]
pub open spec fn topup_requested(
    wallet: WalletView,
    c: u64,
    parameters: ParametersView,
    before: Seq<Entry>,
    drawn: RandomnessView,
    state: AwaitingResponseView,
    request: RequestView,
) -> bool {
    let B = basepoint();
    let tag = randomized(wallet.tag, drawn.t);
    let w_prime = wallet.balance + (c as nat);
    let Com_w_prime = commitment(tag.P, w_prime, drawn.w_blinding);
    &&& request.epoch == wallet.epoch
    &&& request.c == c
    &&& request.n == wallet.nullifier
    &&& request.P == tag.P
    &&& request.Com_w == commitment(tag.P, wallet.balance, drawn.w_blinding)
    &&& request.C_Q == ristretto_add(tag.Q, ristretto_mul(drawn.r_Q, B))
    &&& request.D == ristretto_mul(drawn.d, B)
    &&& request.Enc_w_prime_B == (
        ristretto_mul(drawn.r_w, B),
        ristretto_mul(reduce(w_prime + drawn.r_w * drawn.d), B),
    )
    &&& request.Enc_n_prime_B == (
        ristretto_mul(drawn.r_n, B),
        ristretto_mul(reduce(drawn.n_prime + drawn.r_n * drawn.d), B),
    )
    &&& state.parameters == parameters
    &&& state.w_prime as nat == w_prime
    &&& state.n_prime == drawn.n_prime
    &&& state.d == drawn.d
    &&& state.w_blinding == drawn.w_blinding
    &&& state.D == request.D
    &&& state.Enc_w_prime_B == request.Enc_w_prime_B
    &&& state.Enc_n_prime_B == request.Enc_n_prime_B
    &&& state.transcript == before.push(
        Entry::Proof {
            statement: client_statement_spec(),
            points: client_points(
                request,
                client_blinded_value(parameters.X_1, drawn.w_blinding, drawn.r_Q),
                Com_w_prime,
                parameters.X_1,
            ),
            accepted: true,
        },
    ).push(
        Entry::RangeProof {
            base: tag.P,
            commitment: Com_w_prime,
            bits: BALANCE_BITS as nat,
            accepted: true,
        },
    )
}

impl Wallet {
    /// Request a topup, consuming this credential and generating a topup request
    /// message together with the client state needed to verify a response with a
    /// new wallet credential.
    ///
    /// The request is refused when the wallet is of another epoch than
    /// `parameters`, when the new balance `w + c` does not fit in 64 bits,
    /// and when no range proof can be made for it. The scalars of the
    /// request are drawn from `rng`.
    pub fn request_topup<R: RngCore + CryptoRng>(
        self,
        c: u64,
        parameters: &Parameters,
        transcript: ProofTranscript,
        mut rng: R,
    ) -> (result: Result<(AwaitingResponse, Request), Error>)
        ensures
            match result {
                Ok(out) => {
                    &&& self@.epoch == parameters@.epoch
                    &&& self@.balance + c <= u64::MAX
                    &&& exists|drawn: RandomnessView|
                        topup_requested(self@, c, parameters@, transcript@, drawn, out.0@, out.1@)
                    &&& out.1.proof.responses@.len() == client_statement_spec().scalars.len()
                },
                Err(e) => e == (if self@.epoch != parameters@.epoch {
                    Error::EpochMismatch
                } else {
                    Error::RangeProofFailed
                }),
            },
            self@.epoch == parameters@.epoch && self@.balance + c > u64::MAX ==> result == Err::<
                (AwaitingResponse, Request),
                Error,
            >(Error::RangeProofFailed),
    {
        if self.epoch != parameters.epoch {
            return Err(Error::EpochMismatch);
        }
        let drawn = Randomness::draw(&mut rng);
        let result = self.request_topup_with(c, parameters, transcript, &drawn);
        assert(result matches Ok(out) ==> topup_requested(
            self@,
            c,
            parameters@,
            transcript@,
            drawn@,
            out.0@,
            out.1@,
        ));
        result
    }

    /// Request a topup by `c`, with the scalars `drawn`.
    #[allow(non_snake_case)]
    pub fn request_topup_with(
        self,
        c: u64,
        parameters: &Parameters,
        transcript: ProofTranscript,
        drawn: &Randomness,
    ) -> (result: Result<(AwaitingResponse, Request), Error>)
        ensures
            match result {
                Ok(out) => {
                    &&& self@.epoch == parameters@.epoch
                    &&& self@.balance + c <= u64::MAX
                    &&& topup_requested(self@, c, parameters@, transcript@, drawn@, out.0@, out.1@)
                    &&& out.1.proof.responses@.len() == client_statement_spec().scalars.len()
                },
                Err(e) => e == (if self@.epoch != parameters@.epoch {
                    Error::EpochMismatch
                } else {
                    Error::RangeProofFailed
                }),
            },
            self@.epoch == parameters@.epoch && self@.balance + c > u64::MAX ==> result == Err::<
                (AwaitingResponse, Request),
                Error,
            >(Error::RangeProofFailed),
    {
        if self.epoch != parameters.epoch {
            return Err(Error::EpochMismatch);
        }
        let new_balance = match self.w.checked_add(c) {
            Some(sum) => sum,
            None => {
                return Err(Error::RangeProofFailed);
            },
        };
        let B = base();
        let B_blinding = blinding_base();
        let tag = self.tag.randomize_with(&drawn.t);

        let w = Scalar::from_u64(self.w);
        let w_prime = Scalar::from_u64(new_balance);
        let Com_w = commit(&tag.P, &w, &drawn.w_blinding);
        let Com_w_prime = commit(&tag.P, &w_prime, &drawn.w_blinding);

        let r_Q_B = B.mul(&drawn.r_Q);
        let C_Q = tag.Q.add(&r_Q_B);
        let V = parameters.X_1.mul(&drawn.w_blinding).sub(&r_Q_B);

        let D = B.mul(&drawn.d);
        let Enc_w_prime_B_0 = B.mul(&drawn.r_w);
        let Enc_w_prime_B_1 = B.mul(&w_prime.add(&drawn.r_w.mul(&drawn.d)));
        let Enc_n_prime_B_0 = B.mul(&drawn.r_n);
        let Enc_n_prime_B_1 = B.mul(&drawn.n_prime.add(&drawn.r_n.mul(&drawn.d)));
        proof {
            vstd::arithmetic::div_mod::lemma_add_mod_noop_right(
                w_prime@ as int,
                (drawn.r_w@ * drawn.d@) as int,
                group_order() as int,
            );
            vstd::arithmetic::div_mod::lemma_add_mod_noop_right(
                drawn.n_prime@ as int,
                (drawn.r_n@ * drawn.d@) as int,
                group_order() as int,
            );
        }

        let mut transcript = transcript;
        let statement = client_statement();
        let scalars = vec![
            drawn.d,
            w,
            w_prime,
            drawn.w_blinding,
            drawn.n_prime,
            drawn.r_Q.neg(),
            drawn.r_w,
            drawn.r_n,
        ];
        let points = vec![
            D,
            Enc_w_prime_B_0,
            Enc_w_prime_B_1,
            Enc_n_prime_B_0,
            Enc_n_prime_B_1,
            tag.P,
            V,
            Com_w,
            Com_w_prime,
            B,
            B_blinding,
            parameters.X_1,
        ];
        let (made, encodings) = prove(&mut transcript, &statement, &scalars, &points);

        let ranged = prove_range(&mut transcript, &tag.P, new_balance, &drawn.w_blinding);
        let range_proof = match ranged {
            Some(made) => made,
            None => {
                return Err(Error::RangeProofFailed);
            },
        };
        let request = Request {
            epoch: self.epoch,
            c,
            n: self.n,
            D: encodings[0],
            Enc_n_prime_B: Ciphertext(encodings[3], encodings[4]),
            Enc_w_prime_B: Ciphertext(encodings[1], encodings[2]),
            Com_w: encodings[7],
            P: encodings[5],
            C_Q: C_Q.compress(),
            proof: made,
            range_proof,
        };
        proof {
            assert(point_encodings(points@) =~= client_points(
                request@,
                client_blinded_value(parameters@.X_1, drawn@.w_blinding, drawn@.r_Q),
                commitment(tag@.P, (self@.balance + c) as nat, drawn@.w_blinding),
                parameters@.X_1,
            ));
        }
        let state = AwaitingResponse {
            parameters: *parameters,
            transcript,
            w_prime: new_balance,
            n_prime: drawn.n_prime,
            d: drawn.d,
            w_blinding: drawn.w_blinding,
            D,
            Enc_w_prime_B: Ciphertext(encodings[1], encodings[2]),
            Enc_n_prime_B: Ciphertext(encodings[3], encodings[4]),
        };
        Ok((state, request))
    }
}

/// The issuer's verdict on a topup request, from what its tests found, in
/// the order in which they are made: the request is bound to the epoch of
/// the issuer's key, the nullifier is fresh, the points that the issuer
/// computes with decode, the client's proof is accepted, and the range proof
/// is accepted. The first test that fails names the rejection.
pub open spec fn topup_verdict_spec(
    epoch_matches: bool,
    fresh: bool,
    decodes: bool,
    proof_accepted: bool,
    range_accepted: bool,
) -> Result<(), Error> {
    if !epoch_matches {
        Err(Error::EpochMismatch)
    } else if !fresh {
        Err(Error::NullifierReused)
    } else if !decodes {
        Err(Error::MalformedPoint)
    } else if !proof_accepted {
        Err(Error::ProofVerificationFailed)
    } else if !range_accepted {
        Err(Error::RangeProofFailed)
    } else {
        Ok(())
    }
}

/// The issuer's verdict on a topup request, from what its tests found.
pub fn topup_verdict(
    epoch_matches: bool,
    fresh: bool,
    decodes: bool,
    proof_accepted: bool,
    range_accepted: bool,
) -> (verdict: Result<(), Error>)
    ensures
        verdict == topup_verdict_spec(
            epoch_matches,
            fresh,
            decodes,
            proof_accepted,
            range_accepted,
        ),
{
    if !epoch_matches {
        Err(Error::EpochMismatch)
    } else if !fresh {
        Err(Error::NullifierReused)
    } else if !decodes {
        Err(Error::MalformedPoint)
    } else if !proof_accepted {
        Err(Error::ProofVerificationFailed)
    } else if !range_accepted {
        Err(Error::RangeProofFailed)
    } else {
        Ok(())
    }
}

/// Whether the four points of a request that the issuer computes with
/// before it checks the client's proof are encodings of group elements.
pub open spec fn presented_decodes(request: RequestView) -> bool {
    &&& is_ristretto_encoding(request.Com_w)
    &&& is_ristretto_encoding(request.C_Q)
    &&& is_ristretto_encoding(request.P)
    &&& is_ristretto_encoding(request.D)
}

/// Whether the points of a request that the issuer answers with are
/// encodings of group elements.
pub open spec fn encrypted_decodes(request: RequestView) -> bool {
    &&& is_ristretto_encoding(request.D)
    &&& is_ristretto_encoding(request.Enc_w_prime_B.0)
    &&& is_ristretto_encoding(request.Enc_w_prime_B.1)
    &&& is_ristretto_encoding(request.Enc_n_prime_B.0)
    &&& is_ristretto_encoding(request.Enc_n_prime_B.1)
}

/// The commitment to the new balance as the issuer derives it:
/// `Com_w + c * P`.
pub open spec fn derived_commitment(request: RequestView) -> Seq<u8> {
    ristretto_add(request.Com_w, ristretto_mul(request.c as nat, request.P))
}

/// The points for which the issuer checks the client's proof: those of the
/// request, the blinded value and the commitment to the new balance that
/// the issuer computes from them, and its own `X_1`.
pub open spec fn checked_points(secrets: SecretsView, request: RequestView) -> Seq<Seq<u8>> {
    client_points(
        request,
        issuer_blinded_value(secrets, request.n, request.P, request.Com_w, request.C_Q),
        derived_commitment(request),
        parameters_of(secrets).X_1,
    )
}

/// The entry that checking the client's proof leaves in a transcript.
pub open spec fn client_entry(secrets: SecretsView, request: RequestView, accepted: bool) -> Entry {
    Entry::Proof {
        statement: client_statement_spec(),
        points: checked_points(secrets, request),
        accepted,
    }
}

/// Whether `proof_accepted` is what checking the client's proof came to,
/// where it was checked: for a fresh nullifier and presented points that
/// decode, the proof is checked for [`checked_points`].
pub open spec fn client_proof_checked(
    secrets: SecretsView,
    request: RequestView,
    proof: CompactProof,
    fresh: bool,
    proof_accepted: bool,
) -> bool {
    fresh && presented_decodes(request) ==> proof_checked(
        client_statement_spec(),
        checked_points(secrets, request),
        proof,
        proof_accepted,
    )
}

/// The entry that checking the range proof leaves in a transcript.
pub open spec fn range_entry(request: RequestView, accepted: bool) -> Entry {
    Entry::RangeProof {
        base: request.P,
        commitment: derived_commitment(request),
        bits: BALANCE_BITS as nat,
        accepted,
    }
}

/// What the issuer with the key `secrets` answers to `request`, with the
/// fresh scalars `b` and `r`.
///
/// With `P = b * B`, `t_1 = b * x_1` and `t_2 = b * x_2`, the response
/// carries `P`, `T_1 = b * X_1`, `T_2 = b * X_2`, and the encryption under
/// `D` of the MAC on the encrypted new balance and new nullifier:
///
/// ```text
/// Enc_Q_0 = r * B + t_1 * Enc_w_prime_B_0 + t_2 * Enc_n_prime_B_0
/// Enc_Q_1 = r * D + x_0 * P + t_1 * Enc_w_prime_B_1 + t_2 * Enc_n_prime_B_1
/// ```
#[allow(non_snake_case)]
pub open spec fn topup_response(
    secrets: SecretsView,
    request: RequestView,
    b: nat,
    r: nat,
) -> ResponseView {
    let P = ristretto_mul(b, basepoint());
    let t_1 = reduce(b * secrets.x_1);
    let t_2 = reduce(b * secrets.x_2);
    ResponseView {
        P,
        Enc_Q: (
            ristretto_multiscalar_mul(
                seq![r, t_1, t_2],
                seq![basepoint(), request.Enc_w_prime_B.0, request.Enc_n_prime_B.0],
            ),
            ristretto_multiscalar_mul(
                seq![r, secrets.x_0, t_1, t_2],
                seq![request.D, P, request.Enc_w_prime_B.1, request.Enc_n_prime_B.1],
            ),
        ),
        T_1: ristretto_mul(b, parameters_of(secrets).X_1),
        T_2: ristretto_mul(b, parameters_of(secrets).X_2),
    }
}

/// The entry that the issuer's proof leaves in a transcript.
pub open spec fn issuer_entry(
    secrets: SecretsView,
    request: RequestView,
    response: ResponseView,
) -> Entry {
    Entry::Proof {
        statement: issuer_statement_spec(),
        points: issuer_points(
            response,
            request.D,
            request.Enc_w_prime_B,
            request.Enc_n_prime_B,
            parameters_of(secrets),
        ),
        accepted: true,
    }
}

/// The wallet that the client with the state `state` takes from an
/// accepted `response`: the new balance and the new nullifier, with the tag
/// `(P, Enc_Q_1 - d * Enc_Q_0)`.
pub open spec fn topped_up_wallet(
    state: AwaitingResponseView,
    response: ResponseView,
) -> WalletView {
    WalletView {
        epoch: state.parameters.epoch,
        balance: state.w_prime as nat,
        nullifier: state.n_prime,
        tag: TagView {
            P: response.P,
            Q: ristretto_sub(response.Enc_Q.1, ristretto_mul(state.d, response.Enc_Q.0)),
        },
    }
}

/// What checking a topup request that is bound to the issuer's epoch comes
/// to, when the oracle answers `fresh`, the proof system answers
/// `proof_accepted` to the client's proof `proof`, and the range proof
/// system answers `range_accepted`, each where it is asked: the verdict on
/// these answers, and the transcript with an entry for each proof that was
/// checked.
pub open spec fn topup_checked(
    secrets: SecretsView,
    request: RequestView,
    proof: CompactProof,
    before: Seq<Entry>,
    fresh: bool,
    proof_accepted: bool,
    range_accepted: bool,
    result: Result<(), Error>,
    after: Seq<Entry>,
) -> bool {
    &&& client_proof_checked(secrets, request, proof, fresh, proof_accepted)
    &&& result == topup_verdict_spec(
        true,
        fresh,
        presented_decodes(request),
        proof_accepted,
        range_accepted,
    )
    &&& after == (if !fresh || !presented_decodes(request) {
        before
    } else if !proof_accepted {
        before.push(client_entry(secrets, request, false))
    } else {
        before.push(client_entry(secrets, request, true)).push(range_entry(request, range_accepted))
    })
}

/// What answering a topup request that is bound to the issuer's epoch comes
/// to, when the oracle answers `fresh`, the proof system answers
/// `proof_accepted` to the client's proof `proof`, and the range proof
/// system answers `range_accepted`, each where it is asked: the rejection
/// that the verdict on these answers names, or, where it names none, the
/// response made with two scalars.
pub open spec fn topup_answered(
    secrets: SecretsView,
    request: RequestView,
    proof: CompactProof,
    fresh: bool,
    proof_accepted: bool,
    range_accepted: bool,
    result: Result<Response, Error>,
) -> bool {
    let verdict = topup_verdict_spec(
        true,
        fresh,
        presented_decodes(request),
        proof_accepted,
        range_accepted,
    );
    &&& client_proof_checked(secrets, request, proof, fresh, proof_accepted)
    &&& match result {
        Ok(response) => {
            &&& verdict == Ok::<(), Error>(())
            &&& exists|b: nat, r: nat|
                response@ == #[trigger] topup_response(secrets, request, b, r)
            &&& response.proof.responses@.len() == issuer_statement_spec().scalars.len()
        },
        Err(e) => verdict == Err::<(), Error>(e),
    }
}

impl Secrets {
    /// Tops up a wallet in response to a topup request.
    ///
    /// The request is rejected when it is bound to another epoch than this
    /// key. Then `check_and_update_nullifier` is asked, once, to mark the
    /// request's nullifier, and the request is rejected when the nullifier
    /// is not fresh. Then the request is rejected when a point that it
    /// presents does not decode, when its proof is not accepted on
    /// `transcript`, and when its range proof is not. Otherwise two scalars
    /// are drawn from `rng` and the response is made with them.
    pub fn topup<R: RngCore + CryptoRng, F: FnOnce([u8; 32]) -> bool>(
        &self,
        request: Request,
        transcript: ProofTranscript,
        mut rng: R,
        check_and_update_nullifier: F,
    ) -> (result: Result<Response, Error>)
        requires
            call_requires(check_and_update_nullifier, (request.n.bytes(),)),
        ensures
            request.epoch != self@.epoch ==> result == Err::<Response, Error>(Error::EpochMismatch),
            request.epoch == self@.epoch ==> exists|
                fresh: bool,
                proof_accepted: bool,
                range_accepted: bool,
            |
                call_ensures(check_and_update_nullifier, (request.n.bytes(),), fresh)
                    && #[trigger] topup_answered(
                    self@,
                    request@,
                    request.proof,
                    fresh,
                    proof_accepted,
                    range_accepted,
                    result,
                ),
    {
        let mut transcript = transcript;
        let ghost before = transcript@;
        let checked = self.check_topup(&request, &mut transcript, check_and_update_nullifier);
        let ghost (fresh, proof_accepted, range_accepted) = choose|
            fresh: bool,
            proof_accepted: bool,
            range_accepted: bool,
        |
            call_ensures(check_and_update_nullifier, (request.n.bytes(),), fresh)
                && #[trigger] topup_checked(
                self@,
                request@,
                request.proof,
                before,
                fresh,
                proof_accepted,
                range_accepted,
                checked,
                transcript@,
            );
        match checked {
            Ok(()) => {},
            Err(e) => {
                assert(request.epoch == self@.epoch ==> topup_answered(
                    self@,
                    request@,
                    request.proof,
                    fresh,
                    proof_accepted,
                    range_accepted,
                    Err::<Response, Error>(e),
                ));
                return Err(e);
            },
        }
        let b = Scalar::random(&mut rng);
        let r = Scalar::random(&mut rng);
        let result = self.respond_to_topup(&request, &mut transcript, &b, &r);
        assert(result matches Ok(response) && response@ == topup_response(self@, request@, b@, r@));
        assert(topup_answered(
            self@,
            request@,
            request.proof,
            fresh,
            proof_accepted,
            range_accepted,
            result,
        ));
        result
    }

    /// Decide whether a topup request is answered; see [`Secrets::topup`].
    /// The oracle is asked only about a request that is bound to the epoch
    /// of this key, and the proofs are checked only for a fresh nullifier.
    /// A request that is answered presents and encrypts points that decode.
    #[allow(non_snake_case)]
    pub fn check_topup<F: FnOnce([u8; 32]) -> bool>(
        &self,
        request: &Request,
        transcript: &mut ProofTranscript,
        check_and_update_nullifier: F,
    ) -> (result: Result<(), Error>)
        requires
            call_requires(check_and_update_nullifier, (request.n.bytes(),)),
        ensures
            request.epoch != self@.epoch ==> result == Err::<(), Error>(Error::EpochMismatch)
                && final(transcript)@ == old(transcript)@,
            request.epoch == self@.epoch ==> exists|
                fresh: bool,
                proof_accepted: bool,
                range_accepted: bool,
            |
                call_ensures(check_and_update_nullifier, (request.n.bytes(),), fresh)
                    && #[trigger] topup_checked(
                    self@,
                    request@,
                    request.proof,
                    old(transcript)@,
                    fresh,
                    proof_accepted,
                    range_accepted,
                    result,
                    final(transcript)@,
                ),
            result.is_ok() ==> encrypted_decodes(request@),
    {
        let parameters = self.parameters();
        let epoch_matches = parameters.epoch == request.epoch;
        if !epoch_matches {
            return topup_verdict(false, false, false, false, false);
        }
        let ghost before = transcript@;
        let fresh = check_and_update_nullifier(request.n.to_bytes());
        if !fresh {
            let verdict = topup_verdict(true, false, false, false, false);
            assert(topup_checked(
                self@,
                request@,
                request.proof,
                before,
                false,
                false,
                false,
                verdict,
                before,
            ));
            return verdict;
        }
        let (Com_w, C_Q, P) = match (
            request.Com_w.decompress(),
            request.C_Q.decompress(),
            request.P.decompress(),
            request.D.decompress(),
        ) {
            (Some(Com_w), Some(C_Q), Some(P), Some(_)) => (Com_w, C_Q, P),
            _ => {
                let verdict = topup_verdict(true, true, false, false, false);
                assert(topup_checked(
                    self@,
                    request@,
                    request.proof,
                    before,
                    true,
                    false,
                    false,
                    verdict,
                    before,
                ));
                return verdict;
            },
        };
        let x_0_x_2_n = self.inner.x_0.add(&self.inner.x_2.mul(&request.n));
        proof {
            vstd::arithmetic::div_mod::lemma_add_mod_noop_right(
                self@.x_0 as int,
                (self@.x_2 * request@.n) as int,
                group_order() as int,
            );
        }
        let V = Point::combine2(&x_0_x_2_n, &P, &self.inner.x_1, &Com_w).sub(&C_Q);
        let Com_w_prime = Com_w.add(&P.mul(&Scalar::from_u64(request.c))).compress();

        let statement = client_statement();
        let points = vec![
            request.D,
            request.Enc_w_prime_B.0,
            request.Enc_w_prime_B.1,
            request.Enc_n_prime_B.0,
            request.Enc_n_prime_B.1,
            request.P,
            V.compress(),
            request.Com_w,
            Com_w_prime,
            base().compress(),
            blinding_base().compress(),
            parameters.X_1.compress(),
        ];
        assert(compressed_encodings(points@) =~= client_points(
            request@,
            issuer_blinded_value(self@, request@.n, request@.P, request@.Com_w, request@.C_Q),
            derived_commitment(request@),
            parameters_of(self@).X_1,
        ));
        let proof_accepted = verify(transcript, &statement, &points, &request.proof);
        if !proof_accepted {
            let verdict = topup_verdict(true, true, true, false, false);
            assert(topup_checked(
                self@,
                request@,
                request.proof,
                before,
                true,
                false,
                false,
                verdict,
                transcript@,
            ));
            return verdict;
        }
        assert(encrypted_decodes(request@)) by {
            assert(points[0]@ == request.D@);
            assert(points[1]@ == request.Enc_w_prime_B.0@);
            assert(points[2]@ == request.Enc_w_prime_B.1@);
            assert(points[3]@ == request.Enc_n_prime_B.0@);
            assert(points[4]@ == request.Enc_n_prime_B.1@);
        }
        let range_accepted = verify_range(transcript, &request.range_proof, &P, &Com_w_prime);
        let verdict = topup_verdict(true, true, true, true, range_accepted);
        assert(topup_checked(
            self@,
            request@,
            request.proof,
            before,
            true,
            true,
            range_accepted,
            verdict,
            transcript@,
        ));
        verdict
    }

    /// Answer a topup request with the fresh scalars `b` and `r`, and prove
    /// on `transcript` that the answer was made with this key. The request
    /// is rejected, and the transcript left as it is, when one of the
    /// points that it encrypts to or with does not decode.
    #[allow(non_snake_case)]
    pub fn respond_to_topup(
        &self,
        request: &Request,
        transcript: &mut ProofTranscript,
        b: &Scalar,
        r: &Scalar,
    ) -> (result: Result<Response, Error>)
        ensures
            match result {
                Ok(response) => {
                    &&& encrypted_decodes(request@)
                    &&& response@ == topup_response(self@, request@, b@, r@)
                    &&& response.proof.responses@.len() == issuer_statement_spec().scalars.len()
                    &&& final(transcript)@ == old(transcript)@.push(
                        issuer_entry(self@, request@, response@),
                    )
                },
                Err(e) => {
                    &&& e == Error::MalformedPoint
                    &&& !encrypted_decodes(request@)
                    &&& final(transcript)@ == old(transcript)@
                },
            },
    {
        let B = base();
        let B_blinding = blinding_base();
        let parameters = self.parameters();
        let (D, Enc_w_prime_B_0, Enc_w_prime_B_1, Enc_n_prime_B_0, Enc_n_prime_B_1) = match (
            request.D.decompress(),
            request.Enc_w_prime_B.0.decompress(),
            request.Enc_w_prime_B.1.decompress(),
            request.Enc_n_prime_B.0.decompress(),
            request.Enc_n_prime_B.1.decompress(),
        ) {
            (Some(D), Some(w_0), Some(w_1), Some(n_0), Some(n_1)) => (D, w_0, w_1, n_0, n_1),
            _ => {
                return Err(Error::MalformedPoint);
            },
        };
        let P = B.mul(b);
        let t_1 = b.mul(&self.inner.x_1);
        let T_1 = parameters.X_1.mul(b);
        let t_2 = b.mul(&self.inner.x_2);
        let T_2 = parameters.X_2.mul(b);
        let Enc_Q_0 = Point::combine3(r, &B, &t_1, &Enc_w_prime_B_0, &t_2, &Enc_n_prime_B_0);
        let Enc_Q_1 = Point::combine4(
            r,
            &D,
            &self.inner.x_0,
            &P,
            &t_1,
            &Enc_w_prime_B_1,
            &t_2,
            &Enc_n_prime_B_1,
        );

        let statement = issuer_statement();
        let scalars = vec![
            *b,
            *r,
            self.inner.x_0,
            self.inner.x_1,
            self.inner.x_2,
            self.inner.x_0_blinding,
            t_1,
            t_2,
        ];
        let points = vec![
            P,
            D,
            Enc_w_prime_B_0,
            Enc_w_prime_B_1,
            Enc_n_prime_B_0,
            Enc_n_prime_B_1,
            Enc_Q_0,
            Enc_Q_1,
            T_1,
            T_1,
            T_2,
            T_2,
            parameters.X_0,
            parameters.X_1,
            parameters.X_2,
            B,
            B_blinding,
        ];
        let (made, encodings) = prove(transcript, &statement, &scalars, &points);
        let response = Response {
            P: encodings[0],
            Enc_Q: Ciphertext(encodings[6], encodings[7]),
            T_1: encodings[8],
            T_2: encodings[10],
            proof: made,
        };
        proof {
            assert(point_encodings(points@) =~= issuer_points(
                response@,
                request@.D,
                request@.Enc_w_prime_B,
                request@.Enc_n_prime_B,
                parameters_of(self@),
            ));
        }
        Ok(response)
    }
}

/// The entry that checking the issuer's proof leaves in the client's
/// transcript: the proof is checked for the points of the response and what
/// the client sent and was given.
pub open spec fn response_entry(
    state: AwaitingResponseView,
    response: ResponseView,
    accepted: bool,
) -> Entry {
    Entry::Proof {
        statement: issuer_statement_spec(),
        points: response_points(state, response),
        accepted,
    }
}

/// The points for which the client checks the issuer's proof.
pub open spec fn response_points(
    state: AwaitingResponseView,
    response: ResponseView,
) -> Seq<Seq<u8>> {
    issuer_points(
        response,
        state.D,
        state.Enc_w_prime_B,
        state.Enc_n_prime_B,
        state.parameters,
    )
}

/// What the client's check of `response` comes to: a response whose point
/// `P` does not decode is rejected; of any other, the issuer's proof is
/// checked, and the response is accepted if and only if the proof is.
pub open spec fn response_checked(
    state: AwaitingResponseView,
    response: Response,
    accepted: bool,
) -> bool {
    if !is_ristretto_encoding(response@.P) {
        !accepted
    } else {
        proof_checked(
            issuer_statement_spec(),
            response_points(state, response@),
            response.proof,
            accepted,
        )
    }
}

/// The client's state after it has checked `response`: the state before,
/// with an entry for the check in its transcript if the point `P` of the
/// response decoded.
pub open spec fn after_check(
    state: AwaitingResponseView,
    response: ResponseView,
    accepted: bool,
) -> AwaitingResponseView {
    if is_ristretto_encoding(response.P) {
        AwaitingResponseView {
            transcript: state.transcript.push(response_entry(state, response, accepted)),
            ..state
        }
    } else {
        state
    }
}

impl AwaitingResponse {
    /// Check a topup response. It is rejected when its point `P` does not decode.
    /// Otherwise the issuer's proof is checked on the transcript that the request
    /// was made on, for the public parameters that the request was made for, and
    /// the response is accepted if and only if the proof is: that is for the
    /// proof system to say, unless one of the points is the identity. A response
    /// that is accepted carries points that decode.
    #[allow(non_snake_case)]
    pub fn check_response(&mut self, response: &Response) -> (result: Result<(), Error>)
        ensures
            match result {
                Ok(()) => {
                    &&& is_ristretto_encoding(response@.P)
                    &&& is_ristretto_encoding(response@.Enc_Q.0)
                    &&& is_ristretto_encoding(response@.Enc_Q.1)
                },
                Err(e) => e == (if !is_ristretto_encoding(response@.P) {
                    Error::MalformedPoint
                } else {
                    Error::ProofVerificationFailed
                }),
            },
            response_checked(old(self)@, *response, result.is_ok()),
            final(self)@ == after_check(old(self)@, response@, result.is_ok()),
    {
        if response.P.decompress().is_none() {
            return Err(Error::MalformedPoint);
        }
        let statement = issuer_statement();
        let points = vec![
            response.P,
            self.D.compress(),
            self.Enc_w_prime_B.0,
            self.Enc_w_prime_B.1,
            self.Enc_n_prime_B.0,
            self.Enc_n_prime_B.1,
            response.Enc_Q.0,
            response.Enc_Q.1,
            response.T_1,
            response.T_1,
            response.T_2,
            response.T_2,
            self.parameters.X_0.compress(),
            self.parameters.X_1.compress(),
            self.parameters.X_2.compress(),
            base().compress(),
            blinding_base().compress(),
        ];
        assert(compressed_encodings(points@) =~= issuer_points(
            response@,
            self@.D,
            self@.Enc_w_prime_B,
            self@.Enc_n_prime_B,
            self@.parameters,
        ));
        if !verify(&mut self.transcript, &statement, &points, &response.proof) {
            return Err(Error::ProofVerificationFailed);
        }
        assert(is_ristretto_encoding(response.Enc_Q.0@) && is_ristretto_encoding(
            response.Enc_Q.1@,
        )) by {
            assert(points[6]@ == response.Enc_Q.0@);
            assert(points[7]@ == response.Enc_Q.1@);
        }
        Ok(())
    }

    /// Verify a topup response and obtain the new wallet credential.
    ///
    /// The response is rejected when its point `P` does not decode, and when
    /// its proof is not accepted on the transcript that the request was made
    /// on, for the public parameters that the request was made for.
    #[allow(non_snake_case)]
    pub fn verify_response(self, response: Response) -> (result: Result<Wallet, Error>)
        ensures
            match result {
                Ok(wallet) => {
                    &&& wallet@ == topped_up_wallet(self@, response@)
                    &&& is_ristretto_encoding(response@.P)
                    &&& is_ristretto_encoding(response@.Enc_Q.0)
                    &&& is_ristretto_encoding(response@.Enc_Q.1)
                },
                Err(e) => e == (if !is_ristretto_encoding(response@.P) {
                    Error::MalformedPoint
                } else {
                    Error::ProofVerificationFailed
                }),
            },
            !is_ristretto_encoding(response@.P) ==> result == Err::<Wallet, Error>(
                Error::MalformedPoint,
            ),
            response_checked(self@, response, result.is_ok()),
    {
        let mut state = self;
        match state.check_response(&response) {
            Ok(()) => {},
            Err(e) => {
                return Err(e);
            },
        }
        let (P, Enc_Q_0, Enc_Q_1) = match (
            response.P.decompress(),
            response.Enc_Q.0.decompress(),
            response.Enc_Q.1.decompress(),
        ) {
            (Some(P), Some(Enc_Q_0), Some(Enc_Q_1)) => (P, Enc_Q_0, Enc_Q_1),
            _ => {
                return Err(Error::MalformedPoint);
            },
        };
        let Q = Enc_Q_1.sub(&Enc_Q_0.mul(&state.d));
        Ok(
            Wallet {
                epoch: state.parameters.epoch,
                tag: Tag { P, Q },
                n: state.n_prime,
                w: state.w_prime,
            },
        )
    }
}

/// Topup conserves value: a wallet taken from a response to a request to
/// top up a wallet with the balance `w` by `c` holds the balance `w + c`,
/// exactly, in the same epoch, with the nullifier that the client drew.
pub proof fn topup_adds_exactly(
    wallet: WalletView,
    c: u64,
    parameters: ParametersView,
    before: Seq<Entry>,
    drawn: RandomnessView,
    state: AwaitingResponseView,
    request: RequestView,
    response: ResponseView,
)
    requires
        topup_requested(wallet, c, parameters, before, drawn, state, request),
    ensures
        topped_up_wallet(state, response).balance == wallet.balance + c,
        topped_up_wallet(state, response).epoch == parameters.epoch,
        topped_up_wallet(state, response).nullifier == drawn.n_prime,
        request.n == wallet.nullifier,
{
}

/// The issuer checks a topup request as it was made: if the group
/// operations are those of a group, and the wallet carries the issuer's MAC
/// on its balance and its nullifier, then the issuer checks the client's two
/// proofs for the very points that the client made them for. On transcripts
/// with one history, the client's after its request and the issuer's after
/// its checks have one history again.
pub proof fn topup_request_is_checked_as_made(
    secrets: SecretsView,
    wallet: WalletView,
    c: u64,
    before: Seq<Entry>,
    drawn: RandomnessView,
    state: AwaitingResponseView,
    request: RequestView,
)
    requires
        group_laws(),
        is_ristretto_encoding(basepoint()),
        is_ristretto_encoding(blinding_basepoint()),
        attests(secrets, wallet.tag, wallet.balance, wallet.nullifier),
        topup_requested(wallet, c, parameters_of(secrets), before, drawn, state, request),
    ensures
        state.transcript == before.push(client_entry(secrets, request, true)).push(
            range_entry(request, true),
        ),
{
    let tag = randomized(wallet.tag, drawn.t);
    lemma_blinded_values_agree(
        secrets,
        wallet.tag,
        wallet.balance,
        wallet.nullifier,
        drawn.t,
        drawn.w_blinding,
        drawn.r_Q,
    );
    lemma_mul_closed(drawn.t, wallet.tag.P);
    lemma_commitments_agree(tag.P, wallet.balance, c as nat, drawn.w_blinding);
}

/// Topup is correct: if the group operations are those of a group, the
/// wallet that the client takes from the issuer's answer to its request
/// carries the issuer's MAC on the new balance `w + c` and the new
/// nullifier.
pub proof fn topup_yields_mac(
    secrets: SecretsView,
    wallet: WalletView,
    c: u64,
    parameters: ParametersView,
    before: Seq<Entry>,
    drawn: RandomnessView,
    state: AwaitingResponseView,
    request: RequestView,
    b: nat,
    r: nat,
)
    requires
        group_laws(),
        is_ristretto_encoding(basepoint()),
        topup_requested(wallet, c, parameters, before, drawn, state, request),
    ensures
        attests(
            secrets,
            topped_up_wallet(state, topup_response(secrets, request, b, r)).tag,
            wallet.balance + (c as nat),
            drawn.n_prime,
        ),
{
    lemma_decrypts_to_mac(
        secrets,
        b,
        r,
        drawn.d,
        wallet.balance + (c as nat),
        drawn.r_w,
        drawn.n_prime,
        drawn.r_n,
    );
}

/// The client checks a topup response as it was made: the client that
/// asked the issuer with the key `secrets`, for the parameters of that key,
/// checks the issuer's proof for the very points that the issuer made it
/// for.
pub proof fn topup_response_is_checked_as_made(
    secrets: SecretsView,
    wallet: WalletView,
    c: u64,
    before: Seq<Entry>,
    drawn: RandomnessView,
    state: AwaitingResponseView,
    request: RequestView,
    response: ResponseView,
)
    requires
        topup_requested(wallet, c, parameters_of(secrets), before, drawn, state, request),
    ensures
        response_entry(state, response, true) == issuer_entry(secrets, request, response),
{
}

} // verus!
