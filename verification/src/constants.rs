//! The two fixed group elements that commitments are made with: the
//! Pedersen generators of `bulletproofs`.

use crate::point::{is_ristretto_encoding, Point};
use vstd::prelude::*;

verus! {

/// The encoding of the base `B`: the ristretto255 basepoint.
pub open spec fn basepoint() -> Seq<u8> {
    seq![
        226u8, 242, 174, 10, 106, 188, 78, 113, 168, 132, 169, 97, 197, 0, 81, 95,
        88, 227, 11, 106, 165, 130, 221, 141, 182, 166, 89, 69, 224, 141, 45, 118,
    ]
}

/// The encoding of the blinding base `B_blinding`: the group element that
/// the SHA3-512 hash of the basepoint's encoding maps to.
pub open spec fn blinding_basepoint() -> Seq<u8> {
    seq![
        140u8, 146, 64, 180, 86, 169, 230, 220, 101, 195, 119, 161, 4, 141, 116, 95,
        148, 160, 140, 219, 127, 68, 203, 205, 123, 70, 243, 64, 72, 135, 17, 52,
    ]
}

/// The base `B`.
pub fn base() -> (point: Point)
    ensures
        point@ == basepoint(),
        is_ristretto_encoding(basepoint()),
{
    pedersen_base()
}

/// The blinding base `B_blinding`.
pub fn blinding_base() -> (point: Point)
    ensures
        point@ == blinding_basepoint(),
        is_ristretto_encoding(blinding_basepoint()),
{
    pedersen_blinding_base()
}

/// The field `B` of `PedersenGens::default()` of `bulletproofs`, which is
/// `RISTRETTO_BASEPOINT_POINT` of `curve25519-dalek-ng`; its encoding is the
/// constant `RISTRETTO_BASEPOINT_COMPRESSED` of that crate.
#[verifier::external_body]
fn pedersen_base() -> (point: Point)
    ensures
        point@ == basepoint(),
        is_ristretto_encoding(point@),
{
    Point::from_encoding(bulletproofs::PedersenGens::default().B.compress().to_bytes())
}

/// The field `B_blinding` of `PedersenGens::default()` of `bulletproofs`:
/// `RistrettoPoint::hash_from_bytes::<Sha3_512>` of the basepoint's
/// encoding, a fixed element whose encoding is written out above.
#[verifier::external_body]
fn pedersen_blinding_base() -> (point: Point)
    ensures
        point@ == blinding_basepoint(),
        is_ristretto_encoding(point@),
{
    Point::from_encoding(bulletproofs::PedersenGens::default().B_blinding.compress().to_bytes())
}

} // verus!
