//! The algebra behind the protocols.
//!
//! The contracts of this library say which group operations a result is
//! made of, and leave the group itself to `curve25519-dalek-ng`. The
//! theorems of this module and of the protocol modules say what those
//! results come to *if* the operations are those of a group of the order
//! [`group_order`]: that an honestly issued tag is a MAC on the balance and
//! the nullifier, that rerandomizing keeps it one, and that client and
//! issuer compute the same values for the proofs between them. The laws of
//! the group are the hypothesis [`group_laws`] of each theorem; nothing else
//! in the library rests on them.

use crate::point::{
    is_ristretto_encoding, ristretto_add, ristretto_mul, ristretto_multiscalar_mul,
    ristretto_sub,
};
use crate::scalar::{group_order, reduce};
use vstd::prelude::*;

verus! {

/// The laws of a commutative group of the order [`group_order`], written
/// additively, for the operations on the encodings of its elements:
/// the elements are closed under the operations; addition is commutative
/// and associative; multiplication by a scalar depends on the scalar modulo
/// the order only, multiplication by 1 changes nothing and by 0 gives the
/// neutral element, and multiplication distributes over the addition of
/// scalars, of elements, and composes; subtraction adds the inverse, which
/// is the multiple by the order less one; and a multiscalar product of two,
/// three or four terms is the sum of the products, from the left.
#[verifier::opaque]
pub open spec fn group_laws() -> bool {
    &&& forall|p: Seq<u8>, q: Seq<u8>|
        is_ristretto_encoding(p) && is_ristretto_encoding(q) ==> is_ristretto_encoding(
            #[trigger] ristretto_add(p, q),
        )
    &&& forall|a: nat, p: Seq<u8>|
        is_ristretto_encoding(p) ==> is_ristretto_encoding(#[trigger] ristretto_mul(a, p))
    &&& forall|p: Seq<u8>, q: Seq<u8>|
        is_ristretto_encoding(p) && is_ristretto_encoding(q) ==> #[trigger] ristretto_add(p, q)
            == ristretto_add(q, p)
    &&& forall|p: Seq<u8>, q: Seq<u8>, r: Seq<u8>|
        is_ristretto_encoding(p) && is_ristretto_encoding(q) && is_ristretto_encoding(r)
            ==> #[trigger] ristretto_add(ristretto_add(p, q), r) == ristretto_add(
            p,
            ristretto_add(q, r),
        )
    &&& forall|a: nat, p: Seq<u8>|
        is_ristretto_encoding(p) ==> #[trigger] ristretto_mul(a, p) == ristretto_mul(reduce(a), p)
    &&& forall|p: Seq<u8>| is_ristretto_encoding(p) ==> #[trigger] ristretto_mul(1, p) == p
    &&& forall|p: Seq<u8>, q: Seq<u8>|
        is_ristretto_encoding(p) && is_ristretto_encoding(q) ==> #[trigger] ristretto_add(
            p,
            ristretto_mul(0, q),
        ) == p
    &&& forall|a: nat, b: nat, p: Seq<u8>|
        is_ristretto_encoding(p) ==> #[trigger] ristretto_add(
            ristretto_mul(a, p),
            ristretto_mul(b, p),
        ) == ristretto_mul(a + b, p)
    &&& forall|a: nat, p: Seq<u8>, q: Seq<u8>|
        is_ristretto_encoding(p) && is_ristretto_encoding(q) ==> #[trigger] ristretto_mul(
            a,
            ristretto_add(p, q),
        ) == ristretto_add(ristretto_mul(a, p), ristretto_mul(a, q))
    &&& forall|a: nat, b: nat, p: Seq<u8>|
        is_ristretto_encoding(p) ==> #[trigger] ristretto_mul(a, ristretto_mul(b, p))
            == ristretto_mul(a * b, p)
    &&& forall|p: Seq<u8>, q: Seq<u8>|
        is_ristretto_encoding(p) && is_ristretto_encoding(q) ==> #[trigger] ristretto_sub(p, q)
            == ristretto_add(p, ristretto_mul((group_order() - 1) as nat, q))
    &&& forall|s: Seq<nat>, p: Seq<Seq<u8>>|
        s.len() == 2 && p.len() == 2 && is_ristretto_encoding(p[0]) && is_ristretto_encoding(p[1])
            ==> #[trigger] ristretto_multiscalar_mul(s, p) == ristretto_add(
            ristretto_mul(s[0], p[0]),
            ristretto_mul(s[1], p[1]),
        )
    &&& forall|s: Seq<nat>, p: Seq<Seq<u8>>|
        s.len() == 3 && p.len() == 3 && is_ristretto_encoding(p[0]) && is_ristretto_encoding(p[1])
            && is_ristretto_encoding(p[2]) ==> #[trigger] ristretto_multiscalar_mul(s, p)
            == ristretto_add(
            ristretto_add(ristretto_mul(s[0], p[0]), ristretto_mul(s[1], p[1])),
            ristretto_mul(s[2], p[2]),
        )
    &&& forall|s: Seq<nat>, p: Seq<Seq<u8>>|
        s.len() == 4 && p.len() == 4 && is_ristretto_encoding(p[0]) && is_ristretto_encoding(p[1])
            && is_ristretto_encoding(p[2]) && is_ristretto_encoding(p[3])
            ==> #[trigger] ristretto_multiscalar_mul(s, p) == ristretto_add(
            ristretto_add(
                ristretto_add(ristretto_mul(s[0], p[0]), ristretto_mul(s[1], p[1])),
                ristretto_mul(s[2], p[2]),
            ),
            ristretto_mul(s[3], p[3]),
        )
}

/// A multiscalar product of two terms is the sum of the two products.
pub proof fn lemma_multiscalar2(a: nat, p: Seq<u8>, b: nat, q: Seq<u8>)
    requires
        group_laws(),
        is_ristretto_encoding(p),
        is_ristretto_encoding(q),
    ensures
        ristretto_multiscalar_mul(seq![a, b], seq![p, q]) == ristretto_add(
            ristretto_mul(a, p),
            ristretto_mul(b, q),
        ),
{
    reveal(group_laws);
    let s = seq![a, b];
    let e = seq![p, q];
    assert(s.len() == 2 && e.len() == 2 && e[0] == p && e[1] == q && s[0] == a && s[1] == b);
}

/// A multiscalar product of three terms is the sum of the three products.
pub proof fn lemma_multiscalar3(a: nat, p: Seq<u8>, b: nat, q: Seq<u8>, c: nat, r: Seq<u8>)
    requires
        group_laws(),
        is_ristretto_encoding(p),
        is_ristretto_encoding(q),
        is_ristretto_encoding(r),
    ensures
        ristretto_multiscalar_mul(seq![a, b, c], seq![p, q, r]) == ristretto_add(
            ristretto_add(ristretto_mul(a, p), ristretto_mul(b, q)),
            ristretto_mul(c, r),
        ),
{
    reveal(group_laws);
    let s = seq![a, b, c];
    let e = seq![p, q, r];
    assert(s.len() == 3 && e.len() == 3 && e[0] == p && e[1] == q && e[2] == r && s[0] == a
        && s[1] == b && s[2] == c);
}

/// A multiscalar product of four terms is the sum of the four products.
pub proof fn lemma_multiscalar4(
    a: nat,
    p: Seq<u8>,
    b: nat,
    q: Seq<u8>,
    c: nat,
    r: Seq<u8>,
    d: nat,
    s: Seq<u8>,
)
    requires
        group_laws(),
        is_ristretto_encoding(p),
        is_ristretto_encoding(q),
        is_ristretto_encoding(r),
        is_ristretto_encoding(s),
    ensures
        ristretto_multiscalar_mul(seq![a, b, c, d], seq![p, q, r, s]) == ristretto_add(
            ristretto_add(
                ristretto_add(ristretto_mul(a, p), ristretto_mul(b, q)),
                ristretto_mul(c, r),
            ),
            ristretto_mul(d, s),
        ),
{
    reveal(group_laws);
    let x = seq![a, b, c, d];
    let e = seq![p, q, r, s];
    assert(x.len() == 4 && e.len() == 4 && e[0] == p && e[1] == q && e[2] == r && e[3] == s
        && x[0] == a && x[1] == b && x[2] == c && x[3] == d);
}

/// What the prime order of the group adds to its laws: a multiple of an
/// element other than the neutral one determines the scalar modulo the
/// order. The neutral element is written as the multiple by 0.
#[verifier::opaque]
pub open spec fn multiples_determine_scalars() -> bool {
    forall|a: nat, b: nat, p: Seq<u8>|
        #![trigger ristretto_mul(a, p), ristretto_mul(b, p)]
        is_ristretto_encoding(p) && p != ristretto_mul(0, p) && ristretto_mul(a, p)
            == ristretto_mul(b, p) ==> reduce(a) == reduce(b)
}

/// Two multiples of an element other than the neutral one are equal if and
/// only if the scalars are congruent modulo the order.
pub proof fn lemma_multiples_differ(a: nat, b: nat, p: Seq<u8>)
    requires
        group_laws(),
        multiples_determine_scalars(),
        is_ristretto_encoding(p),
        p != ristretto_mul(0, p),
    ensures
        ristretto_mul(a, p) == ristretto_mul(b, p) <==> reduce(a) == reduce(b),
{
    lemma_mul_closed(a, p);
    lemma_mul_closed(b, p);
    if ristretto_mul(a, p) == ristretto_mul(b, p) {
        reveal(multiples_determine_scalars);
    }
}

/// The sum of two elements is an element.
pub proof fn lemma_add_closed(p: Seq<u8>, q: Seq<u8>)
    requires
        group_laws(),
        is_ristretto_encoding(p),
        is_ristretto_encoding(q),
    ensures
        is_ristretto_encoding(ristretto_add(p, q)),
        ristretto_add(p, q) == ristretto_add(q, p),
{
    reveal(group_laws);
}

/// A multiple of an element is an element, and depends on the scalar modulo
/// the order only.
pub proof fn lemma_mul_closed(a: nat, p: Seq<u8>)
    requires
        group_laws(),
        is_ristretto_encoding(p),
    ensures
        is_ristretto_encoding(ristretto_mul(a, p)),
        ristretto_mul(a, p) == ristretto_mul(reduce(a), p),
{
    reveal(group_laws);
}

/// The multiple of an element by 1 is the element.
pub proof fn lemma_mul_one(p: Seq<u8>)
    requires
        group_laws(),
        is_ristretto_encoding(p),
    ensures
        ristretto_mul(1, p) == p,
{
    reveal(group_laws);
}

/// Addition is associative.
pub proof fn lemma_add_assoc(p: Seq<u8>, q: Seq<u8>, r: Seq<u8>)
    requires
        group_laws(),
        is_ristretto_encoding(p),
        is_ristretto_encoding(q),
        is_ristretto_encoding(r),
    ensures
        ristretto_add(ristretto_add(p, q), r) == ristretto_add(p, ristretto_add(q, r)),
{
    reveal(group_laws);
}

/// `a * p + b * p = (a + b) * p`.
pub proof fn lemma_mul_add_scalars(a: nat, b: nat, p: Seq<u8>)
    requires
        group_laws(),
        is_ristretto_encoding(p),
    ensures
        ristretto_add(ristretto_mul(a, p), ristretto_mul(b, p)) == ristretto_mul(a + b, p),
{
    reveal(group_laws);
}

/// `a * (p + q) = a * p + a * q`.
pub proof fn lemma_mul_add_points(a: nat, p: Seq<u8>, q: Seq<u8>)
    requires
        group_laws(),
        is_ristretto_encoding(p),
        is_ristretto_encoding(q),
    ensures
        ristretto_mul(a, ristretto_add(p, q)) == ristretto_add(
            ristretto_mul(a, p),
            ristretto_mul(a, q),
        ),
{
    reveal(group_laws);
}

/// `a * (b * p) = (a * b) * p`.
pub proof fn lemma_mul_mul(a: nat, b: nat, p: Seq<u8>)
    requires
        group_laws(),
        is_ristretto_encoding(p),
    ensures
        ristretto_mul(a, ristretto_mul(b, p)) == ristretto_mul(a * b, p),
{
    reveal(group_laws);
}

/// `p - q = p + (l - 1) * q` for the order `l`.
pub proof fn lemma_sub(p: Seq<u8>, q: Seq<u8>)
    requires
        group_laws(),
        is_ristretto_encoding(p),
        is_ristretto_encoding(q),
    ensures
        ristretto_sub(p, q) == ristretto_add(p, ristretto_mul((group_order() - 1) as nat, q)),
        is_ristretto_encoding(ristretto_sub(p, q)),
{
    reveal(group_laws);
}

/// Multiples of one element by scalars that are congruent modulo the order
/// are equal: `a * p = b * p` when `a = b + k * l` for the order `l`.
pub proof fn lemma_mul_congruent(a: nat, b: nat, k: nat, p: Seq<u8>)
    requires
        group_laws(),
        is_ristretto_encoding(p),
        a == b + k * group_order(),
    ensures
        ristretto_mul(a, p) == ristretto_mul(b, p),
{
    lemma_mul_closed(a, p);
    lemma_mul_closed(b, p);
    assert(reduce(a) == reduce(b)) by {
        vstd::arithmetic::div_mod::lemma_mod_multiples_vanish(
            k as int,
            b as int,
            group_order() as int,
        );
    }
}

/// `a * p - b * p = (a + (l - 1) * b) * p` for the order `l`.
pub proof fn lemma_mul_sub_scalars(a: nat, b: nat, p: Seq<u8>)
    requires
        group_laws(),
        is_ristretto_encoding(p),
    ensures
        ristretto_sub(ristretto_mul(a, p), ristretto_mul(b, p)) == ristretto_mul(
            a + (group_order() - 1) as nat * b,
            p,
        ),
{
    let minus_one = (group_order() - 1) as nat;
    lemma_mul_closed(a, p);
    lemma_mul_closed(b, p);
    lemma_sub(ristretto_mul(a, p), ristretto_mul(b, p));
    lemma_mul_mul(minus_one, b, p);
    lemma_mul_add_scalars(a, minus_one * b, p);
}

/// `(a + y) - (a + z) = y - z`.
pub proof fn lemma_cancel(a: Seq<u8>, y: Seq<u8>, z: Seq<u8>)
    requires
        group_laws(),
        is_ristretto_encoding(a),
        is_ristretto_encoding(y),
        is_ristretto_encoding(z),
    ensures
        ristretto_sub(ristretto_add(a, y), ristretto_add(a, z)) == ristretto_sub(y, z),
{
    let minus_one = (group_order() - 1) as nat;
    let na = ristretto_mul(minus_one, a);
    let nz = ristretto_mul(minus_one, z);
    lemma_add_closed(a, y);
    lemma_add_closed(a, z);
    lemma_mul_closed(minus_one, a);
    lemma_mul_closed(minus_one, z);
    lemma_sub(ristretto_add(a, y), ristretto_add(a, z));
    lemma_sub(y, z);
    lemma_mul_add_points(minus_one, a, z);
    // (a + y) + (-a + -z) = y + (a + (-a + -z)) = y + ((a + -a) + -z) = y + -z
    lemma_add_closed(na, nz);
    lemma_add_assoc(y, a, ristretto_add(na, nz));
    lemma_add_assoc(a, na, nz);
    lemma_add_closed(a, na);
    assert(ristretto_add(a, na) == ristretto_mul(0, a)) by {
        reveal(group_laws);
        assert(ristretto_mul(1, a) == a);
        lemma_mul_add_scalars(1, minus_one, a);
        lemma_mul_congruent(1 + minus_one, 0, 1, a);
    }
    assert(ristretto_add(ristretto_mul(0, a), nz) == nz) by {
        reveal(group_laws);
        lemma_mul_closed(0, a);
        lemma_add_closed(ristretto_mul(0, a), nz);
    }
}

} // verus!
