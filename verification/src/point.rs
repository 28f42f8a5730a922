//! Elements of the ristretto255 group.
//!
//! A [`Point`] holds the canonical 32-byte encoding of a group element, and a
//! [`CompressedPoint`] holds 32 bytes that claim to be one. The group
//! operations are done by `curve25519-dalek-ng`; each result has a name here
//! ([`ristretto_add`], [`ristretto_mul`], ...), applied to the encodings of
//! the operands.

use crate::scalar::Scalar;
use curve25519_dalek_ng::ristretto::{CompressedRistretto, RistrettoPoint};
use curve25519_dalek_ng::traits::MultiscalarMul;
use vstd::prelude::*;

verus! {

/// Whether `bytes` is the canonical encoding of a group element, as
/// `CompressedRistretto::decompress` decides it.
pub uninterp spec fn is_ristretto_encoding(bytes: Seq<u8>) -> bool;

/// The encoding of the sum of the elements that `a` and `b` encode.
pub uninterp spec fn ristretto_add(a: Seq<u8>, b: Seq<u8>) -> Seq<u8>;

/// The encoding of the difference of the elements that `a` and `b` encode.
pub uninterp spec fn ristretto_sub(a: Seq<u8>, b: Seq<u8>) -> Seq<u8>;

/// The encoding of `scalar` times the element that `point` encodes.
pub uninterp spec fn ristretto_mul(scalar: nat, point: Seq<u8>) -> Seq<u8>;

/// The encoding of the sum of `scalars[i]` times the element that
/// `points[i]` encodes.
pub uninterp spec fn ristretto_multiscalar_mul(scalars: Seq<nat>, points: Seq<Seq<u8>>) -> Seq<u8>;

/// The encoding of the identity element: 32 zero bytes.
pub open spec fn is_identity_encoding(bytes: Seq<u8>) -> bool {
    bytes == Seq::new(32, |i: int| 0u8)
}

/// The values of a sequence of scalars.
pub open spec fn scalar_values(scalars: Seq<Scalar>) -> Seq<nat> {
    Seq::new(scalars.len(), |i: int| scalars[i]@)
}

/// The encodings of a sequence of points.
pub open spec fn point_encodings(points: Seq<Point>) -> Seq<Seq<u8>> {
    Seq::new(points.len(), |i: int| points[i]@)
}

/// The bytes of a sequence of compressed points.
pub open spec fn compressed_encodings(points: Seq<CompressedPoint>) -> Seq<Seq<u8>> {
    Seq::new(points.len(), |i: int| points[i]@)
}

/// 32 bytes received in place of a group element. They may or may not encode
/// one: [`CompressedPoint::decompress`] tells.
#[derive(Copy, Clone, Debug, PartialEq, Eq)]
pub struct CompressedPoint {
    bytes: [u8; 32],
}

/// An ElGamal-style encoding as it is sent: two compressed points, of which
/// the first carries the randomness and the second the encrypted element.
#[derive(Copy, Clone, Debug, PartialEq, Eq)]
pub struct Ciphertext(pub CompressedPoint, pub CompressedPoint);

impl Ciphertext {
    /// The bytes of the two points.
    pub open spec fn view(self) -> (Seq<u8>, Seq<u8>) {
        (self.0@, self.1@)
    }
}

/// A group element, held as its canonical encoding.
#[derive(Copy, Clone, Debug, PartialEq, Eq)]
pub struct Point {
    bytes: [u8; 32],
}

impl CompressedPoint {
    /// The 32 bytes.
    pub closed spec fn view(self) -> Seq<u8> {
        self.bytes@
    }

    /// The compressed point made of `bytes`.
    pub fn from_bytes(bytes: [u8; 32]) -> (point: CompressedPoint)
        ensures
            point@ == bytes@,
    {
        CompressedPoint { bytes }
    }

    /// The 32 bytes.
    pub fn to_bytes(&self) -> (bytes: [u8; 32])
        ensures
            bytes@ == self@,
    {
        self.bytes
    }

    /// The group element that the bytes encode, if they encode one.
    pub fn decompress(&self) -> (point: Option<Point>)
        ensures
            point.is_some() <==> is_ristretto_encoding(self@),
            point matches Some(p) ==> p@ == self@,
    {
        if ristretto_decodes(&self.bytes) {
            Some(Point { bytes: self.bytes })
        } else {
            None
        }
    }
}

impl Point {
    /// Every point holds bytes that decode.
    #[verifier::type_invariant]
    pub closed spec fn valid(self) -> bool {
        is_ristretto_encoding(self.bytes@)
    }

    /// The canonical encoding of the element.
    pub closed spec fn view(self) -> Seq<u8> {
        self.bytes@
    }

    /// The point with the encoding `bytes`.
    pub(crate) fn from_encoding(bytes: [u8; 32]) -> (point: Point)
        requires
            is_ristretto_encoding(bytes@),
        ensures
            point@ == bytes@,
    {
        Point { bytes }
    }

    /// The canonical encoding of the element, which decodes to it again.
    pub fn compress(&self) -> (compressed: CompressedPoint)
        ensures
            compressed@ == self@,
            is_ristretto_encoding(self@),
    {
        proof {
            use_type_invariant(self);
        }
        CompressedPoint { bytes: self.bytes }
    }

    /// The sum of two elements.
    pub fn add(&self, other: &Point) -> (sum: Point)
        ensures
            sum@ == ristretto_add(self@, other@),
    {
        proof {
            use_type_invariant(self);
            use_type_invariant(other);
        }
        point_add(self, other)
    }

    /// The difference of two elements.
    pub fn sub(&self, other: &Point) -> (difference: Point)
        ensures
            difference@ == ristretto_sub(self@, other@),
    {
        proof {
            use_type_invariant(self);
            use_type_invariant(other);
        }
        point_sub(self, other)
    }

    /// The element multiplied by a scalar.
    pub fn mul(&self, scalar: &Scalar) -> (product: Point)
        ensures
            product@ == ristretto_mul(scalar@, self@),
    {
        proof {
            use_type_invariant(self);
            use_type_invariant(scalar);
        }
        point_mul(scalar, self)
    }

    /// `a * p + b * q`.
    pub fn combine2(a: &Scalar, p: &Point, b: &Scalar, q: &Point) -> (sum: Point)
        ensures
            sum@ == ristretto_multiscalar_mul(seq![a@, b@], seq![p@, q@]),
    {
        proof {
            use_type_invariant(a);
            use_type_invariant(p);
            use_type_invariant(b);
            use_type_invariant(q);
        }
        let scalars = vec![*a, *b];
        let points = vec![*p, *q];
        assert(scalar_values(scalars@) =~= seq![a@, b@]);
        assert(point_encodings(points@) =~= seq![p@, q@]);
        point_multiscalar_mul(&scalars, &points)
    }

    /// `a * p + b * q + c * r`.
    pub fn combine3(a: &Scalar, p: &Point, b: &Scalar, q: &Point, c: &Scalar, r: &Point) -> (sum:
        Point)
        ensures
            sum@ == ristretto_multiscalar_mul(seq![a@, b@, c@], seq![p@, q@, r@]),
    {
        proof {
            use_type_invariant(a);
            use_type_invariant(p);
            use_type_invariant(b);
            use_type_invariant(q);
            use_type_invariant(c);
            use_type_invariant(r);
        }
        let scalars = vec![*a, *b, *c];
        let points = vec![*p, *q, *r];
        assert(scalar_values(scalars@) =~= seq![a@, b@, c@]);
        assert(point_encodings(points@) =~= seq![p@, q@, r@]);
        point_multiscalar_mul(&scalars, &points)
    }

    /// `a * p + b * q + c * r + d * s`.
    pub fn combine4(
        a: &Scalar,
        p: &Point,
        b: &Scalar,
        q: &Point,
        c: &Scalar,
        r: &Point,
        d: &Scalar,
        s: &Point,
    ) -> (sum: Point)
        ensures
            sum@ == ristretto_multiscalar_mul(seq![a@, b@, c@, d@], seq![p@, q@, r@, s@]),
    {
        proof {
            use_type_invariant(a);
            use_type_invariant(p);
            use_type_invariant(b);
            use_type_invariant(q);
            use_type_invariant(c);
            use_type_invariant(r);
            use_type_invariant(d);
            use_type_invariant(s);
        }
        let scalars = vec![*a, *b, *c, *d];
        let points = vec![*p, *q, *r, *s];
        assert(scalar_values(scalars@) =~= seq![a@, b@, c@, d@]);
        assert(point_encodings(points@) =~= seq![p@, q@, r@, s@]);
        point_multiscalar_mul(&scalars, &points)
    }
}

/// `CompressedRistretto::decompress` of `curve25519-dalek-ng`, asked only
/// whether it finds a group element: it does exactly for the canonical
/// encodings, and depends on the 32 bytes alone.
#[verifier::external_body]
fn ristretto_decodes(bytes: &[u8; 32]) -> (decodes: bool)
    ensures
        decodes == is_ristretto_encoding(bytes@),
{
    CompressedRistretto(*bytes).decompress().is_some()
}

/// `+` on the `RistrettoPoint`s of `curve25519-dalek-ng`. The operands are
/// decoded, which succeeds for valid encodings, and the sum is encoded
/// again; the encoding of a group element always decodes.
#[verifier::external_body]
fn point_add(a: &Point, b: &Point) -> (sum: Point)
    requires
        a.valid(),
        b.valid(),
    ensures
        sum@ == ristretto_add(a@, b@),
        is_ristretto_encoding(sum@),
        sum.valid(),
{
    let x = CompressedRistretto(a.bytes).decompress().unwrap();
    let y = CompressedRistretto(b.bytes).decompress().unwrap();
    Point { bytes: (x + y).compress().to_bytes() }
}

/// `-` on the `RistrettoPoint`s of `curve25519-dalek-ng`, between decoding
/// the operands and encoding the difference.
#[verifier::external_body]
fn point_sub(a: &Point, b: &Point) -> (difference: Point)
    requires
        a.valid(),
        b.valid(),
    ensures
        difference@ == ristretto_sub(a@, b@),
        is_ristretto_encoding(difference@),
        difference.valid(),
{
    let x = CompressedRistretto(a.bytes).decompress().unwrap();
    let y = CompressedRistretto(b.bytes).decompress().unwrap();
    Point { bytes: (x - y).compress().to_bytes() }
}

/// `*` between a `Scalar` and a `RistrettoPoint` of `curve25519-dalek-ng`,
/// between decoding the point and encoding the product.
#[verifier::external_body]
fn point_mul(scalar: &Scalar, point: &Point) -> (product: Point)
    requires
        scalar.canonical(),
        point.valid(),
    ensures
        product@ == ristretto_mul(scalar@, point@),
        is_ristretto_encoding(product@),
        product.valid(),
{
    let s = curve25519_dalek_ng::scalar::Scalar::from_bits(scalar.to_bytes());
    let p = CompressedRistretto(point.bytes).decompress().unwrap();
    Point { bytes: (p * s).compress().to_bytes() }
}

/// `RistrettoPoint::multiscalar_mul` of `curve25519-dalek-ng`, which panics
/// unless it is given as many scalars as points, between decoding the points
/// and encoding the result.
#[verifier::external_body]
fn point_multiscalar_mul(scalars: &Vec<Scalar>, points: &Vec<Point>) -> (sum: Point)
    requires
        scalars.len() == points.len(),
        forall|i: int| 0 <= i < scalars.len() ==> (#[trigger] scalars[i]).canonical(),
        forall|i: int| 0 <= i < points.len() ==> (#[trigger] points[i]).valid(),
    ensures
        sum@ == ristretto_multiscalar_mul(scalar_values(scalars@), point_encodings(points@)),
        is_ristretto_encoding(sum@),
        sum.valid(),
{
    let s: Vec<_> = scalars.iter().map(
        |s| curve25519_dalek_ng::scalar::Scalar::from_bits(s.to_bytes()),
    ).collect();
    let p: Vec<_> = points.iter().map(
        |p| CompressedRistretto(p.bytes).decompress().unwrap(),
    ).collect();
    Point { bytes: RistrettoPoint::multiscalar_mul(&s, &p).compress().to_bytes() }
}

} // verus!
