//! Scalars: the integers modulo the order of the ristretto255 group.
//!
//! A [`Scalar`] holds the canonical little-endian encoding of its value. The
//! arithmetic is done by `curve25519-dalek-ng`; what each operation returns
//! is stated here as arithmetic modulo [`group_order`].

use rand_core::{CryptoRng, RngCore};
use vstd::prelude::*;

verus! {

/// The order of the ristretto255 group:
/// 2^252 + 27742317777372353535851937790883648493.
pub open spec fn group_order() -> nat {
    7237005577332262213973186563042994240857116359379907606001950938285454250989nat
}

/// The representative of `x` modulo the group order: the one that is at
/// least 0 and below the order.
pub open spec fn reduce(x: nat) -> nat {
    x % group_order()
}

/// The additive inverse of `x` modulo the group order, for `x` below the
/// order.
pub open spec fn negate(x: nat) -> nat {
    reduce((group_order() - x) as nat)
}

/// The number that `bytes` encodes, least significant byte first.
pub open spec fn le_value(bytes: Seq<u8>) -> nat
    decreases bytes.len(),
{
    if bytes.len() == 0 {
        0
    } else {
        bytes[0] as nat + 256 * le_value(bytes.drop_first())
    }
}

/// An integer modulo [`group_order`], held as its canonical 32-byte encoding.
#[derive(Copy, Clone, Debug, PartialEq, Eq)]
pub struct Scalar {
    bytes: [u8; 32],
}

impl Scalar {
    /// Every scalar is reduced: its encoding is that of a number below the
    /// group order.
    #[verifier::type_invariant]
    pub closed spec fn canonical(self) -> bool {
        le_value(self.bytes@) < group_order()
    }

    /// The least non-negative representative of the scalar.
    pub closed spec fn view(self) -> nat {
        le_value(self.bytes@)
    }

    /// The 32 bytes that encode the scalar, least significant first.
    pub closed spec fn bytes(self) -> [u8; 32] {
        self.bytes
    }

    /// The 32 bytes that encode the scalar, as a sequence.
    pub open spec fn encoding(self) -> Seq<u8> {
        self.bytes()@
    }

    /// The scalar with the canonical encoding `bytes`.
    pub(crate) fn from_encoding(bytes: [u8; 32]) -> (s: Scalar)
        requires
            le_value(bytes@) < group_order(),
        ensures
            s.encoding() == bytes@,
            s@ == le_value(bytes@),
    {
        Scalar { bytes }
    }

    /// The scalar `x`.
    pub fn from_u64(x: u64) -> (s: Scalar)
        ensures
            s@ == x,
    {
        scalar_from_u64(x)
    }

    /// A scalar drawn from `rng`: whatever is drawn, a residue below the group order.
    pub fn random<R: RngCore + CryptoRng>(rng: &mut R) -> (s: Scalar)
        ensures
            s@ < group_order(),
    {
        scalar_random(rng)
    }

    /// The canonical encoding of the scalar.
    pub fn to_bytes(&self) -> (bytes: [u8; 32])
        ensures
            bytes == self.bytes(),
            le_value(bytes@) == self@,
            self@ < group_order(),
    {
        proof {
            use_type_invariant(self);
        }
        self.bytes
    }

    /// The sum of two scalars.
    pub fn add(&self, other: &Scalar) -> (sum: Scalar)
        ensures
            sum@ == reduce(self@ + other@),
    {
        proof {
            use_type_invariant(self);
            use_type_invariant(other);
        }
        scalar_add(self, other)
    }

    /// The product of two scalars.
    pub fn mul(&self, other: &Scalar) -> (product: Scalar)
        ensures
            product@ == reduce(self@ * other@),
    {
        proof {
            use_type_invariant(self);
            use_type_invariant(other);
        }
        scalar_mul(self, other)
    }

    /// The additive inverse of the scalar.
    pub fn neg(&self) -> (negation: Scalar)
        ensures
            negation@ == negate(self@),
    {
        proof {
            use_type_invariant(self);
        }
        scalar_neg(self)
    }
}

/// `Scalar::from(u64)` of `curve25519-dalek-ng`: the scalar whose value is
/// `x`. Every `u64` is below the group order, so the result is canonical.
#[verifier::external_body]
fn scalar_from_u64(x: u64) -> (s: Scalar)
    ensures
        s@ == x,
        s.canonical(),
{
    Scalar::from_encoding(curve25519_dalek_ng::scalar::Scalar::from(x).to_bytes())
}

/// `Scalar::random` of `curve25519-dalek-ng`: 64 bytes drawn from `rng`,
/// reduced modulo the group order. Nothing is claimed of the value but that
/// it is reduced.
#[verifier::external_body]
fn scalar_random<R: RngCore + CryptoRng>(rng: &mut R) -> (s: Scalar)
    ensures
        s.canonical(),
{
    Scalar::from_encoding(curve25519_dalek_ng::scalar::Scalar::random(rng).to_bytes())
}

/// `+` on the scalars of `curve25519-dalek-ng`: addition modulo the group
/// order, with a reduced result.
#[verifier::external_body]
fn scalar_add(a: &Scalar, b: &Scalar) -> (sum: Scalar)
    requires
        a.canonical(),
        b.canonical(),
    ensures
        sum@ == reduce(a@ + b@),
        sum.canonical(),
{
    let x = curve25519_dalek_ng::scalar::Scalar::from_bits(a.bytes);
    let y = curve25519_dalek_ng::scalar::Scalar::from_bits(b.bytes);
    Scalar::from_encoding((x + y).to_bytes())
}

/// `*` on the scalars of `curve25519-dalek-ng`: multiplication modulo the
/// group order, with a reduced result.
#[verifier::external_body]
fn scalar_mul(a: &Scalar, b: &Scalar) -> (product: Scalar)
    requires
        a.canonical(),
        b.canonical(),
    ensures
        product@ == reduce(a@ * b@),
        product.canonical(),
{
    let x = curve25519_dalek_ng::scalar::Scalar::from_bits(a.bytes);
    let y = curve25519_dalek_ng::scalar::Scalar::from_bits(b.bytes);
    Scalar::from_encoding((x * y).to_bytes())
}

/// Unary `-` on the scalars of `curve25519-dalek-ng`: the additive inverse
/// modulo the group order, with a reduced result (0 for 0).
#[verifier::external_body]
fn scalar_neg(a: &Scalar) -> (negation: Scalar)
    requires
        a.canonical(),
    ensures
        negation@ == negate(a@),
        negation.canonical(),
{
    let x = curve25519_dalek_ng::scalar::Scalar::from_bits(a.bytes);
    Scalar::from_encoding((-x).to_bytes())
}

} // verus!
