//! Issuance protocol states and messages.
//!
//! The client asks for a wallet with a balance that it names in the clear,
//! and hands the issuer an encryption of a nullifier that it keeps to
//! itself. The issuer evaluates its MAC on the balance and on the encrypted
//! nullifier, and the client decrypts the result into the wallet's tag.

use crate::algebra::{
    group_laws, lemma_mul_add_scalars, lemma_mul_closed, lemma_mul_congruent, lemma_mul_mul,
    lemma_mul_sub_scalars, lemma_multiscalar2, lemma_multiscalar3,
};
use crate::constants::{base, basepoint, blinding_base, blinding_basepoint};
use crate::epoch::Epoch;
use crate::error::Error;
use crate::point::{
    is_ristretto_encoding, ristretto_mul, ristretto_multiscalar_mul, ristretto_sub,
    Ciphertext, CompressedPoint, Point,
};
use crate::scalar::{group_order, reduce, Scalar};
use crate::statement::{
    proof_checked, prove, relation, term, verify, CompactProof, RelationView, Statement,
    StatementView,
};
use crate::tag::{Tag, TagView};
use crate::transcript::{Entry, ProofTranscript};
use crate::wallet::keys::{parameters_of, Parameters, ParametersView, Secrets, SecretsView};
use crate::wallet::mac::attests;
use crate::wallet::{lemma_labels_fit, Wallet, WalletView};
use rand_core::{CryptoRng, RngCore};
use vstd::prelude::*;

verus! {

/// What the client proves of its request: it knows `d`, `n` and `r` with
///
/// ```text
/// D        = d * B
/// Enc_nB_0 = r * B
/// Enc_nB_1 = n * B + r * D
/// ```
#[allow(non_snake_case)]
pub open spec fn client_statement_spec() -> StatementView {
    let d = 0int;
    let n = 1int;
    let r = 2int;
    let D = 0int;
    let Enc_nB_0 = 1int;
    let Enc_nB_1 = 2int;
    let B = 3int;
    StatementView {
        label: "wallet::issuance::client"@,
        scalars: seq!["d"@, "n"@, "r"@],
        points: seq!["D"@, "Enc_nB_0"@, "Enc_nB_1"@, "B"@],
        relations: seq![
            RelationView { lhs: D, terms: seq![(d, B)] },
            RelationView { lhs: Enc_nB_0, terms: seq![(r, B)] },
            RelationView { lhs: Enc_nB_1, terms: seq![(n, B), (r, D)] },
        ],
    }
}

/// The statement that the client proves of its request.
#[allow(non_snake_case)]
#[allow(unused_variables)]
pub fn client_statement() -> (statement: Statement)
    ensures
        statement@ == client_statement_spec(),
        statement@.well_formed(),
{
    let d: usize = 0;
    let n: usize = 1;
    let r: usize = 2;
    let D: usize = 0;
    let Enc_nB_0: usize = 1;
    let Enc_nB_1: usize = 2;
    let B: usize = 3;
    let statement = Statement {
        label: "wallet::issuance::client",
        scalars: vec!["d", "n", "r"],
        points: vec!["D", "Enc_nB_0", "Enc_nB_1", "B"],
        relations: vec![
            relation(D, vec![term(d, B)]),
            relation(Enc_nB_0, vec![term(r, B)]),
            relation(Enc_nB_1, vec![term(n, B), term(r, D)]),
        ],
    };
    proof {
        let spec = client_statement_spec();
        assert(statement@.scalars =~= spec.scalars);
        assert(statement@.points =~= spec.points);
        assert(statement@.relations[0].terms =~= spec.relations[0].terms);
        assert(statement@.relations[1].terms =~= spec.relations[1].terms);
        assert(statement@.relations[2].terms =~= spec.relations[2].terms);
        assert(statement@.relations =~= spec.relations);
        lemma_client_statement_well_formed();
    }
    statement
}

/// The client's statement is well formed.
proof fn lemma_client_statement_well_formed()
    ensures
        client_statement_spec().well_formed(),
{
    lemma_labels_fit();
}

/// What the issuer proves of its response: it knows `b`, `r`, `x_0`, `x_1`,
/// `x_2`, `x_0_blinding` and `t_2` with
///
/// ```text
/// X_0     = x_0 * B + x_0_blinding * B_blinding
/// X_1     = x_1 * B_blinding
/// X_2     = x_2 * B_blinding
/// P       = b * B
/// T_2_a   = b * X_2
/// T_2_b   = t_2 * B_blinding
/// Enc_Q_0 = r * B + t_2 * Enc_nB_0
/// Enc_Q_1 = x_0 * P + x_1 * wP + r * D + t_2 * Enc_nB_1
/// ```
#[allow(non_snake_case)]
pub open spec fn issuer_statement_spec() -> StatementView {
    let b = 0int;
    let r = 1int;
    let x_0 = 2int;
    let x_1 = 3int;
    let x_2 = 4int;
    let x_0_blinding = 5int;
    let t_2 = 6int;
    let P = 0int;
    let wP = 1int;
    let D = 2int;
    let Enc_nB_0 = 3int;
    let Enc_nB_1 = 4int;
    let Enc_Q_0 = 5int;
    let Enc_Q_1 = 6int;
    let T_2_a = 7int;
    let T_2_b = 8int;
    let X_0 = 9int;
    let X_1 = 10int;
    let X_2 = 11int;
    let B = 12int;
    let B_blinding = 13int;
    StatementView {
        label: "wallet::issuance::issuer"@,
        scalars: seq!["b"@, "r"@, "x_0"@, "x_1"@, "x_2"@, "x_0_blinding"@, "t_2"@],
        points: seq![
            "P"@, "wP"@, "D"@, "Enc_nB_0"@, "Enc_nB_1"@, "Enc_Q_0"@, "Enc_Q_1"@, "T_2_a"@, "T_2_b"@,
            "X_0"@, "X_1"@, "X_2"@, "B"@, "B_blinding"@,
        ],
        relations: seq![
            RelationView { lhs: X_0, terms: seq![(x_0, B), (x_0_blinding, B_blinding)] },
            RelationView { lhs: X_1, terms: seq![(x_1, B_blinding)] },
            RelationView { lhs: X_2, terms: seq![(x_2, B_blinding)] },
            RelationView { lhs: P, terms: seq![(b, B)] },
            RelationView { lhs: T_2_a, terms: seq![(b, X_2)] },
            RelationView { lhs: T_2_b, terms: seq![(t_2, B_blinding)] },
            RelationView { lhs: Enc_Q_0, terms: seq![(r, B), (t_2, Enc_nB_0)] },
            RelationView { lhs: Enc_Q_1, terms: seq![
                (x_0, P), (x_1, wP), (r, D), (t_2, Enc_nB_1),
            ] },
        ],
    }
}

/// The statement that the issuer proves of its response.
#[allow(non_snake_case)]
#[allow(unused_variables)]
pub fn issuer_statement() -> (statement: Statement)
    ensures
        statement@ == issuer_statement_spec(),
        statement@.well_formed(),
{
    let b: usize = 0;
    let r: usize = 1;
    let x_0: usize = 2;
    let x_1: usize = 3;
    let x_2: usize = 4;
    let x_0_blinding: usize = 5;
    let t_2: usize = 6;
    let P: usize = 0;
    let wP: usize = 1;
    let D: usize = 2;
    let Enc_nB_0: usize = 3;
    let Enc_nB_1: usize = 4;
    let Enc_Q_0: usize = 5;
    let Enc_Q_1: usize = 6;
    let T_2_a: usize = 7;
    let T_2_b: usize = 8;
    let X_0: usize = 9;
    let X_1: usize = 10;
    let X_2: usize = 11;
    let B: usize = 12;
    let B_blinding: usize = 13;
    let statement = Statement {
        label: "wallet::issuance::issuer",
        scalars: vec!["b", "r", "x_0", "x_1", "x_2", "x_0_blinding", "t_2"],
        points: vec![
            "P", "wP", "D", "Enc_nB_0", "Enc_nB_1", "Enc_Q_0", "Enc_Q_1", "T_2_a", "T_2_b", "X_0",
            "X_1", "X_2", "B", "B_blinding",
        ],
        relations: vec![
            relation(X_0, vec![term(x_0, B), term(x_0_blinding, B_blinding)]),
            relation(X_1, vec![term(x_1, B_blinding)]),
            relation(X_2, vec![term(x_2, B_blinding)]),
            relation(P, vec![term(b, B)]),
            relation(T_2_a, vec![term(b, X_2)]),
            relation(T_2_b, vec![term(t_2, B_blinding)]),
            relation(Enc_Q_0, vec![term(r, B), term(t_2, Enc_nB_0)]),
            relation(Enc_Q_1, vec![term(x_0, P), term(x_1, wP), term(r, D), term(t_2, Enc_nB_1)]),
        ],
    };
    proof {
        let spec = issuer_statement_spec();
        assert(statement@.scalars =~= spec.scalars);
        assert(statement@.points =~= spec.points);
        assert(statement@.relations[0].terms =~= spec.relations[0].terms);
        assert(statement@.relations[1].terms =~= spec.relations[1].terms);
        assert(statement@.relations[2].terms =~= spec.relations[2].terms);
        assert(statement@.relations[3].terms =~= spec.relations[3].terms);
        assert(statement@.relations[4].terms =~= spec.relations[4].terms);
        assert(statement@.relations[5].terms =~= spec.relations[5].terms);
        assert(statement@.relations[6].terms =~= spec.relations[6].terms);
        assert(statement@.relations[7].terms =~= spec.relations[7].terms);
        assert(statement@.relations =~= spec.relations);
        lemma_issuer_statement_well_formed();
    }
    statement
}

/// The issuer's statement is well formed.
proof fn lemma_issuer_statement_well_formed()
    ensures
        issuer_statement_spec().well_formed(),
{
    lemma_labels_fit();
}

/// A request for issuance of a wallet credential.
#[allow(non_snake_case)]
#[derive(Clone, Debug)]
pub struct Request {
    pub w: u64,
    pub epoch: Epoch,
    pub D: CompressedPoint,
    pub Enc_nB: Ciphertext,
    pub proof: CompactProof,
}

/// State held by the client while awaiting an issuance response.
#[allow(non_snake_case)]
pub struct AwaitingResponse {
    pub(crate) parameters: Parameters,
    pub(crate) transcript: ProofTranscript,
    pub(crate) w: u64,
    pub(crate) n: Scalar,
    pub(crate) d: Scalar,
    pub(crate) D: Point,
    pub(crate) Enc_nB: Ciphertext,
}

/// A response to a wallet issuance request.
#[allow(non_snake_case)]
#[derive(Clone, Debug)]
pub struct Response {
    pub P: CompressedPoint,
    pub Enc_Q: Ciphertext,
    pub T_2: CompressedPoint,
    pub proof: CompactProof,
}

/// An issuance request as a value of the logic, without its proof.
#[allow(non_snake_case)]
pub struct RequestView {
    pub w: u64,
    pub epoch: Epoch,
    pub D: Seq<u8>,
    pub Enc_nB: (Seq<u8>, Seq<u8>),
}

/// The client's state as a value of the logic.
#[allow(non_snake_case)]
pub struct AwaitingResponseView {
    pub parameters: ParametersView,
    pub transcript: Seq<Entry>,
    pub w: u64,
    pub n: nat,
    pub d: nat,
    pub D: Seq<u8>,
    pub Enc_nB: (Seq<u8>, Seq<u8>),
}

/// An issuance response as a value of the logic, without its proof.
#[allow(non_snake_case)]
pub struct ResponseView {
    pub P: Seq<u8>,
    pub Enc_Q: (Seq<u8>, Seq<u8>),
    pub T_2: Seq<u8>,
}

impl Request {
    pub open spec fn view(self) -> RequestView {
        RequestView {
            w: self.w,
            epoch: self.epoch,
            D: self.D@,
            Enc_nB: self.Enc_nB@,
        }
    }
}

impl AwaitingResponse {
    pub open(crate) spec fn view(self) -> AwaitingResponseView {
        AwaitingResponseView {
            parameters: self.parameters@,
            transcript: self.transcript@,
            w: self.w,
            n: self.n@,
            d: self.d@,
            D: self.D@,
            Enc_nB: self.Enc_nB@,
        }
    }
}

impl Response {
    pub open spec fn view(self) -> ResponseView {
        ResponseView { P: self.P@, Enc_Q: self.Enc_Q@, T_2: self.T_2@ }
    }
}

/// The points that the client's proof speaks of, in the order of the
/// client's statement.
pub open spec fn client_points(request: RequestView) -> Seq<Seq<u8>> {
    seq![request.D, request.Enc_nB.0, request.Enc_nB.1, basepoint()]
}

/// The points that the issuer's proof speaks of, in the order of the
/// issuer's statement: those of the response, those that the client sent
/// and holds, `w * P`, and the issuer's public parameters.
#[allow(non_snake_case)]
pub open spec fn issuer_points(
    response: ResponseView,
    wP: Seq<u8>,
    D: Seq<u8>,
    Enc_nB: (Seq<u8>, Seq<u8>),
    parameters: ParametersView,
) -> Seq<Seq<u8>> {
    seq![
        response.P,
        wP,
        D,
        Enc_nB.0,
        Enc_nB.1,
        response.Enc_Q.0,
        response.Enc_Q.1,
        response.T_2,
        response.T_2,
        parameters.X_0,
        parameters.X_1,
        parameters.X_2,
        basepoint(),
        blinding_basepoint(),
    ]
}

/// What a request for the balance `w` is, made with the nullifier `n`, the
/// decryption key `d` and the encryption randomness `r` on a transcript
/// with the history `before`: the request and the state that the client
/// keeps.
///
/// The request carries `D = d * B` and the encryption
/// `(r * B, (n + r * d) * B)` of `n * B` under `D`.
pub open spec fn issuance_requested(
    w: u64,
    parameters: ParametersView,
    before: Seq<Entry>,
    n: nat,
    d: nat,
    r: nat,
    state: AwaitingResponseView,
    request: RequestView,
) -> bool {
    &&& request.w == w
    &&& request.epoch == parameters.epoch
    &&& request.D == ristretto_mul(d, basepoint())
    &&& request.Enc_nB.0 == ristretto_mul(r, basepoint())
    &&& request.Enc_nB.1 == ristretto_mul(reduce(n + r * d), basepoint())
    &&& state.parameters == parameters
    &&& state.w == w
    &&& state.n == n
    &&& state.d == d
    &&& state.D == request.D
    &&& state.Enc_nB == request.Enc_nB
    &&& state.transcript == before.push(
        Entry::Proof {
            statement: client_statement_spec(),
            points: client_points(request),
            accepted: true,
        },
    )
}

/// What the issuer with the key `secrets` answers to `request`, with the
/// fresh scalars `b` and `r`.
///
/// With `P = b * B` and `t_2 = b * x_2`, the response carries `P`,
/// `T_2 = b * X_2`, and the encryption under `D` of the MAC on the balance
/// and the encrypted nullifier:
///
/// ```text
/// Enc_Q_0 = r * B + t_2 * Enc_nB_0
/// Enc_Q_1 = (x_0 + x_1 * w) * P + t_2 * Enc_nB_1 + r * D
/// ```
#[allow(non_snake_case)]
pub open spec fn issuance_response(
    secrets: SecretsView,
    request: RequestView,
    b: nat,
    r: nat,
) -> ResponseView {
    let P = ristretto_mul(b, basepoint());
    let t_2 = reduce(b * secrets.x_2);
    ResponseView {
        P,
        Enc_Q: (
            ristretto_multiscalar_mul(seq![r, t_2], seq![basepoint(), request.Enc_nB.0]),
            ristretto_multiscalar_mul(
                seq![reduce(secrets.x_0 + secrets.x_1 * (request.w as nat)), t_2, r],
                seq![P, request.Enc_nB.1, request.D],
            ),
        ),
        T_2: ristretto_mul(b, parameters_of(secrets).X_2),
    }
}

/// The wallet that the client with the state `state` takes from an
/// accepted `response`: the balance and the nullifier that it asked for,
/// with the tag `(P, Enc_Q_1 - d * Enc_Q_0)`.
pub open spec fn issued_wallet(state: AwaitingResponseView, response: ResponseView) -> WalletView {
    WalletView {
        epoch: state.parameters.epoch,
        balance: state.w as nat,
        nullifier: state.n,
        tag: TagView {
            P: response.P,
            Q: ristretto_sub(response.Enc_Q.1, ristretto_mul(state.d, response.Enc_Q.0)),
        },
    }
}

impl Wallet {
    /// Request issuance of a wallet credential, generating an issuance request
    /// message together with the client state needed to verify a response from
    /// the issuer. The nullifier, the decryption key and the encryption
    /// randomness are drawn from `rng`.
    pub fn request_issuance<R: RngCore + CryptoRng>(
        w: u64,
        parameters: &Parameters,
        transcript: ProofTranscript,
        mut rng: R,
    ) -> (out: (AwaitingResponse, Request))
        ensures
            exists|n: nat, d: nat, r: nat|
                issuance_requested(w, parameters@, transcript@, n, d, r, out.0@, out.1@),
            out.1.proof.responses@.len() == client_statement_spec().scalars.len(),
    {
        let n = Scalar::random(&mut rng);
        let d = Scalar::random(&mut rng);
        let r = Scalar::random(&mut rng);
        let out = Wallet::request_issuance_with(w, parameters, transcript, n, d, r);
        assert(issuance_requested(w, parameters@, transcript@, n@, d@, r@, out.0@, out.1@));
        out
    }

    /// Request issuance of a wallet credential for the balance `w`, with the
    /// nullifier `n`, the decryption key `d` and the encryption randomness
    /// `r`.
    #[allow(non_snake_case)]
    pub fn request_issuance_with(
        w: u64,
        parameters: &Parameters,
        transcript: ProofTranscript,
        n: Scalar,
        d: Scalar,
        r: Scalar,
    ) -> (out: (AwaitingResponse, Request))
        ensures
            issuance_requested(w, parameters@, transcript@, n@, d@, r@, out.0@, out.1@),
            out.1.proof.responses@.len() == client_statement_spec().scalars.len(),
    {
        let B = base();
        let D = B.mul(&d);
        let rd = r.mul(&d);
        let exponent = n.add(&rd);
        proof {
            vstd::arithmetic::div_mod::lemma_add_mod_noop_right(
                n@ as int,
                (r@ * d@) as int,
                group_order() as int,
            );
        }
        let Enc_nB = (B.mul(&r), B.mul(&exponent));

        let mut transcript = transcript;
        let statement = client_statement();
        let scalars = vec![d, n, r];
        let points = vec![D, Enc_nB.0, Enc_nB.1, B];
        let (made, encodings) = prove(&mut transcript, &statement, &scalars, &points);
        let request = Request {
            w,
            epoch: parameters.epoch,
            D: encodings[0],
            Enc_nB: Ciphertext(encodings[1], encodings[2]),
            proof: made,
        };
        proof {
            assert(crate::point::point_encodings(points@) =~= client_points(request@));
        }
        let state = AwaitingResponse {
            parameters: *parameters,
            transcript,
            w,
            n,
            d,
            D,
            Enc_nB: Ciphertext(encodings[1], encodings[2]),
        };
        (state, request)
    }
}

/// The issuer's verdict on an issuance request, from what its tests found,
/// in the order in which they are made: the request is bound to the epoch
/// of the issuer's key, and the client's proof is accepted. The first test
/// that fails names the rejection.
pub open spec fn issuance_verdict_spec(epoch_matches: bool, proof_accepted: bool) -> Result<
    (),
    Error,
> {
    if !epoch_matches {
        Err(Error::EpochMismatch)
    } else if !proof_accepted {
        Err(Error::ProofVerificationFailed)
    } else {
        Ok(())
    }
}

/// The issuer's verdict on an issuance request, from what its tests found.
pub fn issuance_verdict(epoch_matches: bool, proof_accepted: bool) -> (verdict: Result<(), Error>)
    ensures
        verdict == issuance_verdict_spec(epoch_matches, proof_accepted),
{
    if !epoch_matches {
        Err(Error::EpochMismatch)
    } else if !proof_accepted {
        Err(Error::ProofVerificationFailed)
    } else {
        Ok(())
    }
}

/// Whether the three points of a request are encodings of group elements.
pub open spec fn request_decodes(request: RequestView) -> bool {
    &&& is_ristretto_encoding(request.D)
    &&& is_ristretto_encoding(request.Enc_nB.0)
    &&& is_ristretto_encoding(request.Enc_nB.1)
}

/// The entry that the issuer's proof leaves in a transcript.
pub open spec fn issuer_entry(
    secrets: SecretsView,
    request: RequestView,
    b: nat,
    response: ResponseView,
) -> Entry {
    Entry::Proof {
        statement: issuer_statement_spec(),
        points: issuer_points(
            response,
            ristretto_mul(reduce(b * (request.w as nat)), basepoint()),
            request.D,
            request.Enc_nB,
            parameters_of(secrets),
        ),
        accepted: true,
    }
}

impl Secrets {
    /// Issues a wallet credential in response to an issuance request.
    ///
    /// This function is solely responsible for the issuance itself and not for
    /// application policy (e.g., checking that the requested amount is valid).
    ///
    /// The request is rejected when it is bound to another epoch than this
    /// key, and when its proof is not accepted on `transcript`. Otherwise,
    /// and so exactly when the proof system accepts the client's proof of a
    /// request for this epoch, two scalars are drawn from `rng` and the
    /// response is made with them. The response should be returned to the
    /// client, who can process it.
    pub fn issue<R: RngCore + CryptoRng>(
        &self,
        request: Request,
        transcript: ProofTranscript,
        mut rng: R,
    ) -> (result: Result<Response, Error>)
        ensures
            match result {
                Ok(response) => {
                    &&& request.epoch == self@.epoch
                    &&& exists|b: nat, r: nat|
                        response@ == issuance_response(self@, request@, b, r)
                    &&& response.proof.responses@.len() == issuer_statement_spec().scalars.len()
                },
                Err(e) => e == (if request.epoch != self@.epoch {
                    Error::EpochMismatch
                } else {
                    Error::ProofVerificationFailed
                }),
            },
            request.epoch == self@.epoch ==> proof_checked(
                client_statement_spec(),
                client_points(request@),
                request.proof,
                result.is_ok(),
            ),
    {
        let mut transcript = transcript;
        match self.check_issuance(&request, &mut transcript) {
            Ok(()) => {},
            Err(e) => {
                return Err(e);
            },
        }
        let b = Scalar::random(&mut rng);
        let r = Scalar::random(&mut rng);
        let result = self.respond_to_issuance(&request, &mut transcript, &b, &r);
        assert(result matches Ok(response) && response@ == issuance_response(
            self@,
            request@,
            b@,
            r@,
        ));
        result
    }

    /// Decide whether an issuance request is answered: it is when it is
    /// bound to the epoch of this key and its proof is accepted on
    /// `transcript`, which is for the proof system to say unless one of the
    /// points of the request is the identity. An accepted proof speaks of
    /// points that decode.
    pub fn check_issuance(&self, request: &Request, transcript: &mut ProofTranscript) -> (result:
        Result<(), Error>)
        ensures
            result == issuance_verdict_spec(request.epoch == self@.epoch, result.is_ok()),
            request.epoch == self@.epoch ==> proof_checked(
                client_statement_spec(),
                client_points(request@),
                request.proof,
                result.is_ok(),
            ),
            result.is_ok() ==> request_decodes(request@),
            final(transcript)@ == (if request.epoch != self@.epoch {
                old(transcript)@
            } else {
                old(transcript)@.push(
                    Entry::Proof {
                        statement: client_statement_spec(),
                        points: client_points(request@),
                        accepted: result.is_ok(),
                    },
                )
            }),
    {
        let parameters = self.parameters();
        if request.epoch != parameters.epoch {
            return issuance_verdict(false, false);
        }
        let statement = client_statement();
        let points = vec![request.D, request.Enc_nB.0, request.Enc_nB.1, base().compress()];
        assert(crate::point::compressed_encodings(points@) =~= client_points(request@));
        let proof_accepted = verify(transcript, &statement, &points, &request.proof);
        if proof_accepted {
            assert(request_decodes(request@)) by {
                assert(points[0]@ == request.D@);
                assert(points[1]@ == request.Enc_nB.0@);
                assert(points[2]@ == request.Enc_nB.1@);
            }
        }
        issuance_verdict(true, proof_accepted)
    }

    /// Answer an issuance request with the fresh scalars `b` and `r`, and
    /// prove on `transcript` that the answer was made with this key. The
    /// request is rejected, and the transcript left as it is, when one of
    /// its points does not decode.
    #[allow(non_snake_case)]
    pub fn respond_to_issuance(
        &self,
        request: &Request,
        transcript: &mut ProofTranscript,
        b: &Scalar,
        r: &Scalar,
    ) -> (result: Result<Response, Error>)
        ensures
            match result {
                Ok(response) => {
                    &&& request_decodes(request@)
                    &&& response@ == issuance_response(self@, request@, b@, r@)
                    &&& response.proof.responses@.len() == issuer_statement_spec().scalars.len()
                    &&& final(transcript)@ == old(transcript)@.push(
                        issuer_entry(self@, request@, b@, response@),
                    )
                },
                Err(e) => {
                    &&& e == Error::MalformedPoint
                    &&& !request_decodes(request@)
                    &&& final(transcript)@ == old(transcript)@
                },
            },
    {
        let B = base();
        let B_blinding = blinding_base();
        let parameters = self.parameters();
        let Enc_nB_0 = match request.Enc_nB.0.decompress() {
            Some(point) => point,
            None => {
                return Err(Error::MalformedPoint);
            },
        };
        let Enc_nB_1 = match request.Enc_nB.1.decompress() {
            Some(point) => point,
            None => {
                return Err(Error::MalformedPoint);
            },
        };
        let D = match request.D.decompress() {
            Some(point) => point,
            None => {
                return Err(Error::MalformedPoint);
            },
        };
        let w = Scalar::from_u64(request.w);
        let P = B.mul(b);
        let wP = B.mul(&b.mul(&w));
        let t_2 = b.mul(&self.inner.x_2);
        let x_0_x_1_w = self.inner.x_0.add(&self.inner.x_1.mul(&w));
        proof {
            vstd::arithmetic::div_mod::lemma_add_mod_noop_right(
                self@.x_0 as int,
                (self@.x_1 * (request.w as nat)) as int,
                group_order() as int,
            );
        }
        let Enc_Q_0 = Point::combine2(r, &B, &t_2, &Enc_nB_0);
        let Enc_Q_1 = Point::combine3(&x_0_x_1_w, &P, &t_2, &Enc_nB_1, r, &D);
        let T_2 = parameters.X_2.mul(b);

        let statement = issuer_statement();
        let scalars = vec![
            *b,
            *r,
            self.inner.x_0,
            self.inner.x_1,
            self.inner.x_2,
            self.inner.x_0_blinding,
            t_2,
        ];
        let points = vec![
            P,
            wP,
            D,
            Enc_nB_0,
            Enc_nB_1,
            Enc_Q_0,
            Enc_Q_1,
            T_2,
            T_2,
            parameters.X_0,
            parameters.X_1,
            parameters.X_2,
            B,
            B_blinding,
        ];
        let (made, encodings) = prove(transcript, &statement, &scalars, &points);
        let response = Response {
            P: encodings[0],
            Enc_Q: Ciphertext(encodings[5], encodings[6]),
            T_2: encodings[7],
            proof: made,
        };
        proof {
            assert(crate::point::point_encodings(points@) =~= issuer_points(
                response@,
                ristretto_mul(reduce(b@ * (request.w as nat)), basepoint()),
                request@.D,
                request@.Enc_nB,
                parameters_of(self@),
            ));
        }
        Ok(response)
    }
}

/// The entry that checking the issuer's proof leaves in the client's
/// transcript: the proof is checked for the points of the response, `w * P`
/// for the balance `w` that the client asked for, and what the client sent
/// and was given.
pub open spec fn response_entry(
    state: AwaitingResponseView,
    response: ResponseView,
    accepted: bool,
) -> Entry {
    Entry::Proof {
        statement: issuer_statement_spec(),
        points: response_points(state, response),
        accepted,
    }
}

/// The points for which the client checks the issuer's proof.
pub open spec fn response_points(
    state: AwaitingResponseView,
    response: ResponseView,
) -> Seq<Seq<u8>> {
    issuer_points(
        response,
        ristretto_mul(state.w as nat, response.P),
        state.D,
        state.Enc_nB,
        state.parameters,
    )
}

/// What the client's check of `response` comes to: a response whose point
/// `P` does not decode is rejected; of any other, the issuer's proof is
/// checked, and the response is accepted if and only if the proof is.
pub open spec fn response_checked(
    state: AwaitingResponseView,
    response: Response,
    accepted: bool,
) -> bool {
    if !is_ristretto_encoding(response@.P) {
        !accepted
    } else {
        proof_checked(
            issuer_statement_spec(),
            response_points(state, response@),
            response.proof,
            accepted,
        )
    }
}

/// The client's state after it has checked `response`: the state before,
/// with an entry for the check in its transcript if the point `P` of the
/// response decoded.
pub open spec fn after_check(
    state: AwaitingResponseView,
    response: ResponseView,
    accepted: bool,
) -> AwaitingResponseView {
    if is_ristretto_encoding(response.P) {
        AwaitingResponseView {
            transcript: state.transcript.push(response_entry(state, response, accepted)),
            ..state
        }
    } else {
        state
    }
}

impl AwaitingResponse {
    /// Check an issuance response. It is rejected when its point `P` does not
    /// decode. Otherwise the issuer's proof is checked on the transcript that the
    /// request was made on, for the public parameters that the request was made
    /// for, and the response is accepted if and only if the proof is: that is for
    /// the proof system to say, unless one of the points is the identity. A
    /// response that is accepted carries points that decode.
    #[allow(non_snake_case)]
    pub fn check_response(&mut self, response: &Response) -> (result: Result<(), Error>)
        ensures
            match result {
                Ok(()) => {
                    &&& is_ristretto_encoding(response@.P)
                    &&& is_ristretto_encoding(response@.Enc_Q.0)
                    &&& is_ristretto_encoding(response@.Enc_Q.1)
                },
                Err(e) => e == (if !is_ristretto_encoding(response@.P) {
                    Error::MalformedPoint
                } else {
                    Error::ProofVerificationFailed
                }),
            },
            response_checked(old(self)@, *response, result.is_ok()),
            final(self)@ == after_check(old(self)@, response@, result.is_ok()),
    {
        let P = match response.P.decompress() {
            Some(point) => point,
            None => {
                return Err(Error::MalformedPoint);
            },
        };
        let wP = P.mul(&Scalar::from_u64(self.w));
        let statement = issuer_statement();
        let points = vec![
            response.P,
            wP.compress(),
            self.D.compress(),
            self.Enc_nB.0,
            self.Enc_nB.1,
            response.Enc_Q.0,
            response.Enc_Q.1,
            response.T_2,
            response.T_2,
            self.parameters.X_0.compress(),
            self.parameters.X_1.compress(),
            self.parameters.X_2.compress(),
            base().compress(),
            blinding_base().compress(),
        ];
        assert(crate::point::compressed_encodings(points@) =~= issuer_points(
            response@,
            ristretto_mul(self.w as nat, response@.P),
            self@.D,
            self@.Enc_nB,
            self@.parameters,
        ));
        if !verify(&mut self.transcript, &statement, &points, &response.proof) {
            return Err(Error::ProofVerificationFailed);
        }
        assert(is_ristretto_encoding(response.Enc_Q.0@) && is_ristretto_encoding(
            response.Enc_Q.1@,
        )) by {
            assert(points[5]@ == response.Enc_Q.0@);
            assert(points[6]@ == response.Enc_Q.1@);
        }
        Ok(())
    }

    /// Verify an issuance response and obtain a wallet credential.
    ///
    /// The response is rejected when its point `P` does not decode, and when
    /// its proof is not accepted on the transcript that the request was made
    /// on, for the public parameters that the request was made for.
    #[allow(non_snake_case)]
    pub fn verify_response(self, response: Response) -> (result: Result<Wallet, Error>)
        ensures
            match result {
                Ok(wallet) => {
                    &&& wallet@ == issued_wallet(self@, response@)
                    &&& is_ristretto_encoding(response@.P)
                    &&& is_ristretto_encoding(response@.Enc_Q.0)
                    &&& is_ristretto_encoding(response@.Enc_Q.1)
                },
                Err(e) => e == (if !is_ristretto_encoding(response@.P) {
                    Error::MalformedPoint
                } else {
                    Error::ProofVerificationFailed
                }),
            },
            !is_ristretto_encoding(response@.P) ==> result == Err::<Wallet, Error>(
                Error::MalformedPoint,
            ),
            response_checked(self@, response, result.is_ok()),
    {
        let mut state = self;
        match state.check_response(&response) {
            Ok(()) => {},
            Err(e) => {
                return Err(e);
            },
        }
        let (P, Enc_Q_0, Enc_Q_1) = match (
            response.P.decompress(),
            response.Enc_Q.0.decompress(),
            response.Enc_Q.1.decompress(),
        ) {
            (Some(P), Some(Enc_Q_0), Some(Enc_Q_1)) => (P, Enc_Q_0, Enc_Q_1),
            _ => {
                return Err(Error::MalformedPoint);
            },
        };
        let Q = Enc_Q_1.sub(&Enc_Q_0.mul(&state.d));
        Ok(Wallet { epoch: state.parameters.epoch, tag: Tag { P, Q }, n: state.n, w: state.w })
    }
}

/// A wallet taken from a response to a request for the balance `w` holds
/// the balance `w`, in the epoch of the parameters that the request was
/// made for, with the nullifier that the client chose.
pub proof fn issuance_yields_requested_balance(
    w: u64,
    parameters: ParametersView,
    before: Seq<Entry>,
    n: nat,
    d: nat,
    r: nat,
    state: AwaitingResponseView,
    request: RequestView,
    response: ResponseView,
)
    requires
        issuance_requested(w, parameters, before, n, d, r, state, request),
    ensures
        issued_wallet(state, response).balance == w,
        issued_wallet(state, response).epoch == parameters.epoch,
        issued_wallet(state, response).nullifier == n,
{
}

/// Issuance is correct: if the group operations are those of a group, the
/// wallet that the client takes from the issuer's answer to its request
/// carries the issuer's MAC on the balance and the nullifier that the
/// client asked for.
#[allow(non_snake_case)]
pub proof fn issuance_yields_mac(
    secrets: SecretsView,
    w: u64,
    parameters: ParametersView,
    before: Seq<Entry>,
    n: nat,
    d: nat,
    r: nat,
    state: AwaitingResponseView,
    request: RequestView,
    b: nat,
    r_issuer: nat,
)
    requires
        group_laws(),
        is_ristretto_encoding(basepoint()),
        issuance_requested(w, parameters, before, n, d, r, state, request),
    ensures
        attests(
            secrets,
            issued_wallet(state, issuance_response(secrets, request, b, r_issuer)).tag,
            w as nat,
            n,
        ),
{
    let B = basepoint();
    let l = group_order();
    let response = issuance_response(secrets, request, b, r_issuer);
    let (x_0, x_1, x_2) = (secrets.x_0, secrets.x_1, secrets.x_2);
    let t_2 = b * x_2;
    let P = ristretto_mul(b, B);
    lemma_mul_closed(b, B);

    // What the client sent, as multiples of B.
    let D = ristretto_mul(d, B);
    let Enc_0 = ristretto_mul(r, B);
    let Enc_1 = ristretto_mul(n + r * d, B);
    lemma_mul_closed(d, B);
    lemma_mul_closed(r, B);
    lemma_mul_closed(n + r * d, B);
    assert(request.D == D && request.Enc_nB.0 == Enc_0 && request.Enc_nB.1 == Enc_1);

    // Enc_Q_0 = (r' + t_2 * r) * B
    let e_0 = r_issuer + t_2 * r;
    assert(response.Enc_Q.0 == ristretto_mul(e_0, B)) by {
        lemma_multiscalar2(r_issuer, B, reduce(t_2), Enc_0);
        lemma_mul_closed(t_2, Enc_0);
        lemma_mul_mul(t_2, r, B);
        lemma_mul_add_scalars(r_issuer, t_2 * r, B);
    }
    lemma_mul_closed(e_0, B);

    // Enc_Q_1 = ((x_0 + x_1 * w) * b + t_2 * (n + r * d) + r' * d) * B
    let c = x_0 + x_1 * (w as nat);
    let e_1 = c * b + t_2 * (n + r * d) + r_issuer * d;
    assert(response.Enc_Q.1 == ristretto_mul(e_1, B)) by {
        lemma_multiscalar3(reduce(c), P, reduce(t_2), Enc_1, r_issuer, D);
        lemma_mul_closed(c, P);
        lemma_mul_closed(t_2, Enc_1);
        lemma_mul_mul(c, b, B);
        lemma_mul_mul(t_2, n + r * d, B);
        lemma_mul_mul(r_issuer, d, B);
        lemma_mul_closed(c * b, B);
        lemma_mul_closed(t_2 * (n + r * d), B);
        lemma_mul_add_scalars(c * b, t_2 * (n + r * d), B);
        lemma_mul_add_scalars(c * b + t_2 * (n + r * d), r_issuer * d, B);
    }

    // Q = Enc_Q_1 - d * Enc_Q_0 = (x_0 + x_1 * w + x_2 * n) * b * B
    let m = x_0 + x_1 * (w as nat) + x_2 * n;
    let Q = ristretto_sub(response.Enc_Q.1, ristretto_mul(d, response.Enc_Q.0));
    let q = e_1 + (l - 1) as nat * (d * e_0);
    assert(Q == ristretto_mul(q, B)) by {
        lemma_mul_mul(d, e_0, B);
        lemma_mul_sub_scalars(e_1, d * e_0, B);
    }
    assert(q == m * b + (d * e_0) * l) by {
        let x = d * e_0;
        let core = c * b + t_2 * n;
        assert(t_2 * (n + r * d) == t_2 * n + d * (t_2 * r)) by (nonlinear_arith);
        assert(x == r_issuer * d + d * (t_2 * r)) by (nonlinear_arith)
            requires
                x == d * e_0,
                e_0 == r_issuer + t_2 * r,
        ;
        assert(e_1 == core + x);
        assert(m * b == core) by (nonlinear_arith)
            requires
                m == x_0 + x_1 * (w as nat) + x_2 * n,
                core == c * b + t_2 * n,
                c == x_0 + x_1 * (w as nat),
                t_2 == b * x_2,
        ;
        assert(x + (l - 1) as nat * x == x * l) by (nonlinear_arith)
            requires
                l >= 1,
        ;
    }
    lemma_mul_congruent(q, m * b, d * e_0, B);
    lemma_mul_mul(m, b, B);
}

/// The client checks an issuance response as it was made: if the group
/// operations are those of a group, the client that asked the issuer with
/// the key `secrets`, for the parameters of that key, checks the issuer's
/// proof for the very points that the issuer made it for.
pub proof fn issuance_response_is_checked_as_made(
    secrets: SecretsView,
    w: u64,
    before: Seq<Entry>,
    n: nat,
    d: nat,
    r: nat,
    state: AwaitingResponseView,
    request: RequestView,
    b: nat,
    r_issuer: nat,
)
    requires
        group_laws(),
        is_ristretto_encoding(basepoint()),
        issuance_requested(w, parameters_of(secrets), before, n, d, r, state, request),
    ensures
        response_entry(state, issuance_response(secrets, request, b, r_issuer), true)
            == issuer_entry(secrets, request, b, issuance_response(secrets, request, b, r_issuer)),
{
    let B = basepoint();
    lemma_mul_mul(w as nat, b, B);
    lemma_mul_closed(b * (w as nat), B);
    assert((w as nat) * b == b * (w as nat)) by (nonlinear_arith);
}

} // verus!
