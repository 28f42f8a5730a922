//! The algebraic MAC that binds a wallet to its balance and nullifier.

use crate::algebra::{
    group_laws, lemma_mul_closed, lemma_mul_one, lemma_multiples_differ,
    multiples_determine_scalars,
};
use crate::point::{is_ristretto_encoding, ristretto_mul, Point};
use crate::scalar::{group_order, reduce, Scalar};
use rand_core::{CryptoRng, RngCore};
use vstd::prelude::*;

verus! {

/// A rerandomizable MAC tag `(P, Q)`: under the issuer's key
/// `(x_0, x_1, x_2)`, `Q` is `x_0 * P + x_1 * (w * P) + x_2 * (n * P)` for
/// the balance `w` and the nullifier `n` that the tag attests to.
#[allow(non_snake_case)]
#[derive(Copy, Clone, Debug)]
pub struct Tag {
    pub P: Point,
    pub Q: Point,
}

/// The encodings of the two points of a tag.
#[allow(non_snake_case)]
pub struct TagView {
    pub P: Seq<u8>,
    pub Q: Seq<u8>,
}

/// The tag `tag` with both points multiplied by `r`.
pub open spec fn randomized(tag: TagView, r: nat) -> TagView {
    TagView { P: ristretto_mul(r, tag.P), Q: ristretto_mul(r, tag.Q) }
}

/// Whether `new` is `old` with both points multiplied by one scalar.
pub open spec fn is_randomization(old_tag: TagView, new_tag: TagView) -> bool {
    exists|r: nat| r < group_order() && new_tag == #[trigger] randomized(old_tag, r)
}

impl Tag {
    /// The encodings of the two points.
    pub open spec fn view(self) -> TagView {
        TagView { P: self.P@, Q: self.Q@ }
    }

    /// Rerandomize the tag with the scalar `r`: a tag for the same balance
    /// and nullifier, since the MAC relation is linear in `P`.
    pub fn randomize_with(&self, r: &Scalar) -> (tag: Tag)
        ensures
            tag@ == randomized(self@, r@),
            r@ < group_order(),
    {
        let _ = r.to_bytes();
        Tag { P: self.P.mul(r), Q: self.Q.mul(r) }
    }

    /// Rerandomize the tag with a scalar drawn from `rng`, to obtain a
    /// new, unlinkable tag for the same balance and nullifier.
    pub fn randomize<R: RngCore + CryptoRng>(&self, rng: &mut R) -> (tag: Tag)
        ensures
            is_randomization(self@, tag@),
    {
        let r = Scalar::random(rng);
        self.randomize_with(&r)
    }
}

/// Rerandomized tags are as different as the scalars that made them: in a
/// group of prime order, for a tag of two elements whose `P` is not the
/// neutral one, two rerandomizations are equal, and have the same `P`, if
/// and only if their scalars are congruent modulo the order, and a
/// rerandomization has the `P` of the tag itself if and only if its scalar
/// is congruent to 1. So two scalars drawn independently give two different
/// tags unless the draws coincide.
pub proof fn randomizations_differ_with_their_scalars(tag: TagView, r_1: nat, r_2: nat)
    requires
        group_laws(),
        multiples_determine_scalars(),
        is_ristretto_encoding(tag.P),
        is_ristretto_encoding(tag.Q),
        tag.P != ristretto_mul(0, tag.P),
    ensures
        randomized(tag, r_1).P == randomized(tag, r_2).P <==> reduce(r_1) == reduce(r_2),
        randomized(tag, r_1) == randomized(tag, r_2) <==> reduce(r_1) == reduce(r_2),
        randomized(tag, r_1).P == tag.P <==> reduce(r_1) == 1,
{
    lemma_multiples_differ(r_1, r_2, tag.P);
    lemma_multiples_differ(r_1, 1, tag.P);
    lemma_mul_one(tag.P);
    assert(reduce(1) == 1);
    if reduce(r_1) == reduce(r_2) {
        lemma_mul_closed(r_1, tag.Q);
        lemma_mul_closed(r_2, tag.Q);
    }
}

} // verus!
