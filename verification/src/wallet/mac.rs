//! The MAC that a wallet carries, and why the protocols keep it.
//!
//! A tag `(P, Q)` is the issuer's MAC on a balance `w` and a nullifier `n`
//! when `Q = (x_0 + x_1 * w + x_2 * n) * P`. The lemmas of this module say,
//! for the operations of a group, that what the issuer computes from a
//! request is what the client computed for it, and that what the client
//! decrypts from a response is a MAC again. The theorems of the protocol
//! modules apply them to the requests and responses that the protocols make.

use crate::algebra::{
    group_laws, lemma_add_assoc, lemma_add_closed, lemma_cancel, lemma_mul_add_points,
    lemma_mul_add_scalars, lemma_mul_closed, lemma_mul_congruent, lemma_mul_mul,
    lemma_mul_sub_scalars, lemma_multiscalar2, lemma_multiscalar3, lemma_multiscalar4,
};
use crate::constants::{basepoint, blinding_basepoint};
use crate::point::{
    is_ristretto_encoding, ristretto_add, ristretto_mul, ristretto_multiscalar_mul,
    ristretto_sub,
};
use crate::range::commitment;
use crate::scalar::{group_order, reduce};
use crate::tag::{randomized, TagView};
use crate::wallet::keys::{parameters_of, SecretsView};
use vstd::prelude::*;

verus! {

/// Whether `tag` is the MAC under the key `secrets` on the balance and the
/// nullifier: `Q = (x_0 + x_1 * balance + x_2 * nullifier) * P`, for an
/// element `P`.
pub open spec fn attests(secrets: SecretsView, tag: TagView, balance: nat, nullifier: nat) -> bool {
    &&& is_ristretto_encoding(tag.P)
    &&& tag.Q == ristretto_mul(
        secrets.x_0 + secrets.x_1 * balance + secrets.x_2 * nullifier,
        tag.P,
    )
}

/// Rerandomizing keeps a tag the MAC that it is: the MAC relation is
/// linear in `P`.
pub proof fn randomization_keeps_mac(
    secrets: SecretsView,
    tag: TagView,
    balance: nat,
    nullifier: nat,
    r: nat,
)
    requires
        group_laws(),
        attests(secrets, tag, balance, nullifier),
    ensures
        attests(secrets, randomized(tag, r), balance, nullifier),
{
    let m = secrets.x_0 + secrets.x_1 * balance + secrets.x_2 * nullifier;
    lemma_mul_closed(r, tag.P);
    lemma_mul_mul(r, m, tag.P);
    lemma_mul_mul(m, r, tag.P);
    assert(r * m == m * r) by (nonlinear_arith);
}

/// The value that the client blinds its tag with is the value that the
/// issuer computes from what the client presents.
///
/// Let `(P, Q)` be a MAC under the key `secrets` on the balance `w` and
/// the nullifier `n`, rerandomized with `t` to `(P', Q')`. The client
/// presents `P'`, the commitment `Com_w = w * P' + w_blinding * B_blinding`
/// and the blinded `C_Q = Q' + r_Q * B`. Then the issuer's
/// `(x_0 + x_2 * n) * P' + x_1 * Com_w - C_Q` is the client's
/// `w_blinding * X_1 - r_Q * B`, for `X_1 = x_1 * B_blinding`.
#[allow(non_snake_case)]
pub proof fn lemma_blinded_values_agree(
    secrets: SecretsView,
    tag: TagView,
    w: nat,
    n: nat,
    t: nat,
    w_blinding: nat,
    r_Q: nat,
)
    requires
        group_laws(),
        is_ristretto_encoding(basepoint()),
        is_ristretto_encoding(blinding_basepoint()),
        attests(secrets, tag, w, n),
    ensures
        ({
            let P = ristretto_mul(t, tag.P);
            let Com_w = commitment(P, w, w_blinding);
            let C_Q = ristretto_add(ristretto_mul(t, tag.Q), ristretto_mul(r_Q, basepoint()));
            ristretto_sub(
                ristretto_multiscalar_mul(
                    seq![reduce(secrets.x_0 + secrets.x_2 * n), secrets.x_1],
                    seq![P, Com_w],
                ),
                C_Q,
            ) == ristretto_sub(
                ristretto_mul(w_blinding, parameters_of(secrets).X_1),
                ristretto_mul(r_Q, basepoint()),
            )
        }),
{
    let (B, H) = (basepoint(), blinding_basepoint());
    let (x_0, x_1, x_2) = (secrets.x_0, secrets.x_1, secrets.x_2);
    let m = x_0 + x_1 * w + x_2 * n;
    let P = ristretto_mul(t, tag.P);
    lemma_mul_closed(t, tag.P);

    // The rerandomized Q is m * P'.
    let A = ristretto_mul(m, P);
    assert(ristretto_mul(t, tag.Q) == A) by {
        lemma_mul_mul(t, m, tag.P);
        lemma_mul_mul(m, t, tag.P);
        assert(t * m == m * t) by (nonlinear_arith);
    }
    lemma_mul_closed(m, P);
    let Z = ristretto_mul(r_Q, B);
    lemma_mul_closed(r_Q, B);
    let C_Q = ristretto_add(A, Z);

    // x_1 * Com_w = (x_1 * w) * P' + (x_1 * w_blinding) * B_blinding
    let W = ristretto_mul(w, P);
    let V = ristretto_mul(w_blinding, H);
    lemma_mul_closed(w, P);
    lemma_mul_closed(w_blinding, H);
    let Com_w = commitment(P, w, w_blinding);
    assert(Com_w == ristretto_add(W, V)) by {
        lemma_multiscalar2(w, P, w_blinding, H);
    }
    lemma_add_closed(W, V);
    let Y = ristretto_mul(x_1 * w_blinding, H);
    lemma_mul_closed(x_1 * w_blinding, H);
    assert(ristretto_mul(x_1, Com_w) == ristretto_add(ristretto_mul(x_1 * w, P), Y)) by {
        lemma_mul_add_points(x_1, W, V);
        lemma_mul_mul(x_1, w, P);
        lemma_mul_mul(x_1, w_blinding, H);
    }
    lemma_mul_closed(x_1 * w, P);

    // (x_0 + x_2 * n) * P' + x_1 * Com_w = m * P' + Y
    let product = ristretto_multiscalar_mul(seq![reduce(x_0 + x_2 * n), x_1], seq![P, Com_w]);
    assert(product == ristretto_add(A, Y)) by {
        lemma_multiscalar2(reduce(x_0 + x_2 * n), P, x_1, Com_w);
        lemma_mul_closed(x_0 + x_2 * n, P);
        lemma_add_assoc(ristretto_mul(x_0 + x_2 * n, P), ristretto_mul(x_1 * w, P), Y);
        lemma_mul_add_scalars(x_0 + x_2 * n, x_1 * w, P);
        assert(x_0 + x_2 * n + x_1 * w == m);
    }

    // (A + Y) - (A + Z) = Y - Z, and Y = w_blinding * X_1.
    lemma_cancel(A, Y, Z);
    assert(ristretto_mul(w_blinding, parameters_of(secrets).X_1) == Y) by {
        lemma_mul_mul(w_blinding, x_1, H);
        assert(w_blinding * x_1 == x_1 * w_blinding) by (nonlinear_arith);
    }
}

/// The commitment to the new balance that the issuer derives from the
/// commitment to the old one is the commitment that the client made:
/// `(w * P + w_blinding * B_blinding) + c * P` is
/// `(w + c) * P + w_blinding * B_blinding`.
#[allow(non_snake_case)]
pub proof fn lemma_commitments_agree(P: Seq<u8>, w: nat, c: nat, w_blinding: nat)
    requires
        group_laws(),
        is_ristretto_encoding(blinding_basepoint()),
        is_ristretto_encoding(P),
    ensures
        ristretto_add(commitment(P, w, w_blinding), ristretto_mul(c, P)) == commitment(
            P,
            w + c,
            w_blinding,
        ),
{
    let H = blinding_basepoint();
    let W = ristretto_mul(w, P);
    let V = ristretto_mul(w_blinding, H);
    let C = ristretto_mul(c, P);
    lemma_mul_closed(w, P);
    lemma_mul_closed(w_blinding, H);
    lemma_mul_closed(c, P);
    lemma_multiscalar2(w, P, w_blinding, H);
    lemma_multiscalar2(w + c, P, w_blinding, H);
    // (W + V) + C = C + (W + V) = (C + W) + V = (w + c) * P + V
    lemma_add_closed(W, V);
    lemma_add_closed(ristretto_add(W, V), C);
    lemma_add_assoc(C, W, V);
    lemma_mul_add_scalars(c, w, P);
    assert(c + w == w + c);
}

/// What the client decrypts from the issuer's answer to an encrypted
/// balance and an encrypted nullifier is the MAC on the two.
///
/// Let the client send `D = d * B` and the encryptions
/// `(r_w * B, (w + r_w * d) * B)` and `(r_n * B, (n + r_n * d) * B)`, and
/// let the issuer with the key `x_0, x_1, x_2` answer with `P = b * B` and,
/// for `t_1 = b * x_1` and `t_2 = b * x_2`,
///
/// ```text
/// Enc_Q_0 = r * B + t_1 * (r_w * B) + t_2 * (r_n * B)
/// Enc_Q_1 = r * D + x_0 * P + t_1 * ((w + r_w * d) * B) + t_2 * ((n + r_n * d) * B)
/// ```
///
/// Then `Enc_Q_1 - d * Enc_Q_0` is `(x_0 + x_1 * w + x_2 * n) * P`.
#[allow(non_snake_case)]
pub proof fn lemma_decrypts_to_mac(
    secrets: SecretsView,
    b: nat,
    r: nat,
    d: nat,
    w: nat,
    r_w: nat,
    n: nat,
    r_n: nat,
)
    requires
        group_laws(),
        is_ristretto_encoding(basepoint()),
    ensures
        ({
            let B = basepoint();
            let P = ristretto_mul(b, B);
            let t_1 = reduce(b * secrets.x_1);
            let t_2 = reduce(b * secrets.x_2);
            let Enc_Q_0 = ristretto_multiscalar_mul(
                seq![r, t_1, t_2],
                seq![B, ristretto_mul(r_w, B), ristretto_mul(r_n, B)],
            );
            let Enc_Q_1 = ristretto_multiscalar_mul(
                seq![r, secrets.x_0, t_1, t_2],
                seq![
                    ristretto_mul(d, B),
                    P,
                    ristretto_mul(reduce(w + r_w * d), B),
                    ristretto_mul(reduce(n + r_n * d), B),
                ],
            );
            attests(
                secrets,
                TagView { P, Q: ristretto_sub(Enc_Q_1, ristretto_mul(d, Enc_Q_0)) },
                w,
                n,
            )
        }),
{
    let B = basepoint();
    let l = group_order();
    let (x_0, x_1, x_2) = (secrets.x_0, secrets.x_1, secrets.x_2);
    let (t_1, t_2) = (b * x_1, b * x_2);
    let P = ristretto_mul(b, B);
    let D = ristretto_mul(d, B);
    let W_0 = ristretto_mul(r_w, B);
    let N_0 = ristretto_mul(r_n, B);
    let W_1 = ristretto_mul(w + r_w * d, B);
    let N_1 = ristretto_mul(n + r_n * d, B);
    lemma_mul_closed(b, B);
    lemma_mul_closed(d, B);
    lemma_mul_closed(r_w, B);
    lemma_mul_closed(r_n, B);
    lemma_mul_closed(w + r_w * d, B);
    lemma_mul_closed(n + r_n * d, B);

    // Enc_Q_0 = (r + t_1 * r_w + t_2 * r_n) * B
    let e_0 = r + t_1 * r_w + t_2 * r_n;
    let Enc_Q_0 = ristretto_multiscalar_mul(seq![r, reduce(t_1), reduce(t_2)], seq![B, W_0, N_0]);
    assert(Enc_Q_0 == ristretto_mul(e_0, B)) by {
        lemma_multiscalar3(r, B, reduce(t_1), W_0, reduce(t_2), N_0);
        lemma_mul_closed(t_1, W_0);
        lemma_mul_closed(t_2, N_0);
        lemma_mul_mul(t_1, r_w, B);
        lemma_mul_mul(t_2, r_n, B);
        lemma_mul_add_scalars(r, t_1 * r_w, B);
        lemma_mul_add_scalars(r + t_1 * r_w, t_2 * r_n, B);
    }

    // Enc_Q_1 = (r * d + x_0 * b + t_1 * (w + r_w * d) + t_2 * (n + r_n * d)) * B
    let e_1 = r * d + x_0 * b + t_1 * (w + r_w * d) + t_2 * (n + r_n * d);
    let Enc_Q_1 = ristretto_multiscalar_mul(
        seq![r, x_0, reduce(t_1), reduce(t_2)],
        seq![D, P, W_1, N_1],
    );
    assert(Enc_Q_1 == ristretto_mul(e_1, B)) by {
        lemma_multiscalar4(r, D, x_0, P, reduce(t_1), W_1, reduce(t_2), N_1);
        lemma_mul_closed(t_1, W_1);
        lemma_mul_closed(t_2, N_1);
        lemma_mul_mul(r, d, B);
        lemma_mul_mul(x_0, b, B);
        lemma_mul_mul(t_1, w + r_w * d, B);
        lemma_mul_mul(t_2, n + r_n * d, B);
        lemma_mul_add_scalars(r * d, x_0 * b, B);
        lemma_mul_add_scalars(r * d + x_0 * b, t_1 * (w + r_w * d), B);
        lemma_mul_add_scalars(r * d + x_0 * b + t_1 * (w + r_w * d), t_2 * (n + r_n * d), B);
    }

    // Enc_Q_1 - d * Enc_Q_0 = (x_0 + x_1 * w + x_2 * n) * b * B
    let m = x_0 + x_1 * w + x_2 * n;
    let q = e_1 + (l - 1) as nat * (d * e_0);
    assert(ristretto_sub(Enc_Q_1, ristretto_mul(d, Enc_Q_0)) == ristretto_mul(q, B)) by {
        lemma_mul_mul(d, e_0, B);
        lemma_mul_sub_scalars(e_1, d * e_0, B);
    }
    assert(q == m * b + (d * e_0) * l) by {
        let x = d * e_0;
        let core = x_0 * b + t_1 * w + t_2 * n;
        assert(t_1 * (w + r_w * d) == t_1 * w + d * (t_1 * r_w)) by (nonlinear_arith);
        assert(t_2 * (n + r_n * d) == t_2 * n + d * (t_2 * r_n)) by (nonlinear_arith);
        assert(x == r * d + d * (t_1 * r_w) + d * (t_2 * r_n)) by (nonlinear_arith)
            requires
                x == d * e_0,
                e_0 == r + t_1 * r_w + t_2 * r_n,
        ;
        assert(e_1 == core + x);
        assert(m * b == core) by (nonlinear_arith)
            requires
                m == x_0 + x_1 * w + x_2 * n,
                core == x_0 * b + t_1 * w + t_2 * n,
                t_1 == b * x_1,
                t_2 == b * x_2,
        ;
        assert(x + (l - 1) as nat * x == x * l) by (nonlinear_arith)
            requires
                l >= 1,
        ;
    }
    lemma_mul_congruent(q, m * b, d * e_0, B);
    lemma_mul_mul(m, b, B);
    // The scalars of the two products may be written reduced or not.
    lemma_mul_closed(w + r_w * d, B);
    lemma_mul_closed(n + r_n * d, B);
}

} // verus!
