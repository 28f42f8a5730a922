//! Pedersen commitments to a balance, and proofs that a committed balance
//! fits in 64 bits.
//!
//! Both are made by `bulletproofs`. A commitment here has a base of its own
//! in place of the usual one; its blinding base is always
//! [`blinding_base`].

use crate::constants::{blinding_base, blinding_basepoint};
use crate::point::{
    is_ristretto_encoding, ristretto_multiscalar_mul, CompressedPoint, Point,
};
use crate::scalar::Scalar;
use crate::transcript::{Entry, ProofTranscript};
use bulletproofs::{BulletproofGens, PedersenGens};
use curve25519_dalek_ng::ristretto::CompressedRistretto;
use vstd::prelude::*;

verus! {

/// The encoding of the commitment `value * base + blinding * B_blinding`.
pub open spec fn commitment(base: Seq<u8>, value: nat, blinding: nat) -> Seq<u8> {
    ristretto_multiscalar_mul(seq![value, blinding], seq![base, blinding_basepoint()])
}

/// The width of a balance in bits: a range proof shows that a committed
/// balance is below 2 to this power.
pub const BALANCE_BITS: usize = 64;

/// A proof that a committed value fits in 64 bits, in its serialized form.
#[derive(Clone, Debug)]
pub struct RangeProof {
    pub bytes: Vec<u8>,
}

/// The commitment to `value` with the base `base` and the blinding factor
/// `blinding`.
pub fn commit(base: &Point, value: &Scalar, blinding: &Scalar) -> (point: Point)
    ensures
        point@ == commitment(base@, value@, blinding@),
{
    let blinding_base = blinding_base();
    proof {
        use_type_invariant(base);
        use_type_invariant(&blinding_base);
    }
    pedersen_commit(base, &blinding_base, value, blinding)
}

/// Make, on `transcript`, a proof that `value`, committed to with the base
/// `base` and the blinding factor `blinding`, fits in [`BALANCE_BITS`] bits. `None` when
/// the proof system fails to make one.
pub fn prove_range(
    transcript: &mut ProofTranscript,
    base: &Point,
    value: u64,
    blinding: &Scalar,
) -> (proof: Option<RangeProof>)
    ensures
        final(transcript)@ == old(transcript)@.push(
            Entry::RangeProof {
                base: base@,
                commitment: commitment(base@, value as nat, blinding@),
                bits: BALANCE_BITS as nat,
                accepted: proof.is_some(),
            },
        ),
{
    let blinding_base = blinding_base();
    proof {
        use_type_invariant(base);
        use_type_invariant(&blinding_base);
    }
    let made = range_prove(
        &mut transcript.inner,
        base,
        &blinding_base,
        value,
        blinding,
        BALANCE_BITS,
    );
    proof {
        transcript.history@ = transcript.history@.push(
            Entry::RangeProof {
                base: base@,
                commitment: commitment(base@, value as nat, blinding@),
                bits: BALANCE_BITS as nat,
                accepted: made.is_some(),
            },
        );
    }
    made
}

/// Check, on `transcript`, a proof that the value committed to in
/// `commitment`, with the base `base`, fits in [`BALANCE_BITS`] bits.
pub fn verify_range(
    transcript: &mut ProofTranscript,
    proof: &RangeProof,
    base: &Point,
    commitment: &CompressedPoint,
) -> (accepted: bool)
    ensures
        final(transcript)@ == old(transcript)@.push(
            Entry::RangeProof {
                base: base@,
                commitment: commitment@,
                bits: BALANCE_BITS as nat,
                accepted,
            },
        ),
{
    let blinding_base = blinding_base();
    proof {
        use_type_invariant(base);
        use_type_invariant(&blinding_base);
    }
    let accepted = range_verify(
        &mut transcript.inner,
        proof,
        base,
        &blinding_base,
        commitment,
        BALANCE_BITS,
    );
    proof {
        transcript.history@ = transcript.history@.push(
            Entry::RangeProof {
                base: base@,
                commitment: commitment@,
                bits: BALANCE_BITS as nat,
                accepted,
            },
        );
    }
    accepted
}

/// `PedersenGens::commit` of `bulletproofs`, on generators made of the two
/// given bases: the multiscalar product of `(value, blinding)` with
/// `(base, blinding_base)`.
#[verifier::external_body]
fn pedersen_commit(
    base: &Point,
    blinding_base: &Point,
    value: &Scalar,
    blinding: &Scalar,
) -> (point: Point)
    requires
        base.valid(),
        blinding_base.valid(),
    ensures
        point@ == ristretto_multiscalar_mul(seq![value@, blinding@], seq![base@, blinding_base@]),
        is_ristretto_encoding(point@),
{
    let B = CompressedRistretto(base.compress().to_bytes()).decompress().unwrap();
    let B_blinding = CompressedRistretto(blinding_base.compress().to_bytes()).decompress().unwrap();
    let v = curve25519_dalek_ng::scalar::Scalar::from_bits(value.to_bytes());
    let r = curve25519_dalek_ng::scalar::Scalar::from_bits(blinding.to_bytes());
    Point::from_encoding(PedersenGens { B, B_blinding }.commit(v, r).compress().to_bytes())
}

/// `RangeProof::prove_single` of `bulletproofs`, for a width of `bits` bits,
/// with generators of that capacity for the one party of a single proof,
/// and commitments made of the two given bases. A width other than 8, 16,
/// 32 or 64 is refused. Whether it succeeds otherwise, and the proof, depend
/// on randomness drawn inside: nothing is claimed of either.
#[verifier::external_body]
fn range_prove(
    transcript: &mut merlin::Transcript,
    base: &Point,
    blinding_base: &Point,
    value: u64,
    blinding: &Scalar,
    bits: usize,
) -> (proof: Option<RangeProof>)
    requires
        base.valid(),
        blinding_base.valid(),
        bits <= 64,
{
    let B = CompressedRistretto(base.compress().to_bytes()).decompress().unwrap();
    let B_blinding = CompressedRistretto(blinding_base.compress().to_bytes()).decompress().unwrap();
    let r = curve25519_dalek_ng::scalar::Scalar::from_bits(blinding.to_bytes());
    let gens = PedersenGens { B, B_blinding };
    let bp_gens = BulletproofGens::new(bits, 1);
    bulletproofs::RangeProof::prove_single(&bp_gens, &gens, transcript, value, &r, bits)
        .ok().map(|made| RangeProof { bytes: made.0.to_bytes() })
}

/// `RangeProof::from_bytes` and `RangeProof::verify_single` of
/// `bulletproofs`, for a width of `bits` bits, with generators of that
/// capacity for the one party of a single proof: whether the bytes parse as
/// a proof and the proof is accepted. The check draws randomness inside:
/// nothing is claimed of the answer.
#[verifier::external_body]
fn range_verify(
    transcript: &mut merlin::Transcript,
    proof: &RangeProof,
    base: &Point,
    blinding_base: &Point,
    commitment: &CompressedPoint,
    bits: usize,
) -> (accepted: bool)
    requires
        base.valid(),
        blinding_base.valid(),
        bits <= 64,
{
    let B = CompressedRistretto(base.compress().to_bytes()).decompress().unwrap();
    let B_blinding = CompressedRistretto(blinding_base.compress().to_bytes()).decompress().unwrap();
    let gens = PedersenGens { B, B_blinding };
    let V = CompressedRistretto(commitment.to_bytes());
    let bp_gens = BulletproofGens::new(bits, 1);
    match bulletproofs::RangeProof::from_bytes(&proof.bytes) {
        Ok(parsed) => parsed.verify_single(&bp_gens, &gens, transcript, &V, bits).is_ok(),
        Err(_) => false,
    }
}

} // verus!
