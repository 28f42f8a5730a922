//! Statements of knowledge, and compact proofs of them.
//!
//! A [`Statement`] names secret scalars and public points and lists linear
//! relations between them: each relation says that one point is a sum of
//! scalars times points. [`prove`] makes a compact proof that the prover
//! knows scalars for which the relations hold, and [`verify`] checks one.
//! Both are bound to a [`ProofTranscript`]. The proof system itself is `zkp`'s;
//! this module hands it a statement piece by piece.

use crate::point::{
    compressed_encodings, is_identity_encoding, is_ristretto_encoding, point_encodings,
    CompressedPoint, Point,
};
use crate::point::scalar_values;
use crate::scalar::Scalar;
use crate::transcript::{Entry, ProofTranscript};
use curve25519_dalek_ng::ristretto::CompressedRistretto;
use vstd::prelude::*;
use zkp::toolbox::SchnorrCS;

verus! {

/// One summand of a relation: the scalar and the point, by their positions
/// in the statement.
#[derive(Copy, Clone, Debug)]
pub struct Term {
    pub scalar: usize,
    pub point: usize,
}

/// One relation: the point at position `lhs` is the sum of the terms.
#[derive(Clone, Debug)]
pub struct Relation {
    pub lhs: usize,
    pub terms: Vec<Term>,
}

/// A statement: a label that tells it from all other statements, the names
/// of its secret scalars and of its public points, and its relations.
#[derive(Clone, Debug)]
pub struct Statement {
    pub label: &'static str,
    pub scalars: Vec<&'static str>,
    pub points: Vec<&'static str>,
    pub relations: Vec<Relation>,
}

/// A relation as a value of the logic.
pub struct RelationView {
    pub lhs: int,
    pub terms: Seq<(int, int)>,
}

/// A statement as a value of the logic.
pub struct StatementView {
    pub label: Seq<char>,
    pub scalars: Seq<Seq<char>>,
    pub points: Seq<Seq<char>>,
    pub relations: Seq<RelationView>,
}

impl Relation {
    pub open spec fn view(self) -> RelationView {
        RelationView {
            lhs: self.lhs as int,
            terms: Seq::new(
                self.terms@.len(),
                |i: int| (self.terms@[i].scalar as int, self.terms@[i].point as int),
            ),
        }
    }
}

impl RelationView {
    /// Whether the relation speaks only of the first `scalars` scalars and
    /// the first `points` points.
    pub open spec fn within(self, scalars: int, points: int) -> bool {
        &&& 0 <= self.lhs < points
        &&& forall|i: int|
            0 <= i < self.terms.len() ==> 0 <= (#[trigger] self.terms[i]).0 < scalars && 0
                <= self.terms[i].1 < points
    }
}

/// Whether a label is short enough to be bound into a transcript, which
/// takes labels of at most `u32::MAX` bytes.
#[verifier::opaque]
pub open spec fn label_fits(label: Seq<char>) -> bool {
    vstd::utf8::encode_utf8(label).len() <= u32::MAX
}

impl StatementView {
    /// Whether every label is short enough to be bound into a transcript,
    /// and every relation speaks of scalars and points that the statement
    /// names.
    pub open spec fn well_formed(self) -> bool {
        &&& label_fits(self.label)
        &&& forall|i: int| 0 <= i < self.scalars.len() ==> label_fits(#[trigger] self.scalars[i])
        &&& forall|i: int| 0 <= i < self.points.len() ==> label_fits(#[trigger] self.points[i])
        &&& forall|k: int|
            0 <= k < self.relations.len() ==> (#[trigger] self.relations[k]).within(
                self.scalars.len() as int,
                self.points.len() as int,
            )
    }
}

/// The term `scalar * point`, by the positions of the two.
pub fn term(scalar: usize, point: usize) -> (term: Term)
    ensures
        term == (Term { scalar, point }),
{
    Term { scalar, point }
}

/// The relation `lhs = terms[0] + terms[1] + ...`, by the position of the
/// point `lhs`.
pub fn relation(lhs: usize, terms: Vec<Term>) -> (relation: Relation)
    ensures
        relation == (Relation { lhs, terms }),
{
    Relation { lhs, terms }
}

/// Whether a label is short enough to be bound into a transcript.
fn fits(label: &str) -> (fits: bool)
    ensures
        fits == label_fits(label@),
{
    proof {
        reveal(label_fits);
    }
    label.as_bytes().len() <= 0xffff_ffff
}

/// Whether every one of `labels` is short enough to be bound into a
/// transcript.
fn all_fit(labels: &Vec<&'static str>) -> (fit: bool)
    ensures
        fit == forall|i: int| 0 <= i < labels.len() ==> label_fits(#[trigger] labels[i]@),
{
    let mut i: usize = 0;
    while i < labels.len()
        invariant
            i <= labels.len(),
            forall|j: int| 0 <= j < i ==> label_fits(#[trigger] labels[j]@),
        decreases labels.len() - i,
    {
        if !fits(labels[i]) {
            return false;
        }
        i += 1;
    }
    true
}

impl Statement {
    pub open spec fn view(self) -> StatementView {
        StatementView {
            label: self.label@,
            scalars: Seq::new(self.scalars@.len(), |i: int| self.scalars@[i]@),
            points: Seq::new(self.points@.len(), |i: int| self.points@[i]@),
            relations: Seq::new(self.relations@.len(), |i: int| self.relations@[i]@),
        }
    }

    /// Whether every label is short enough to be bound into a transcript,
    /// and every relation speaks of scalars and points that the statement
    /// names.
    pub fn is_well_formed(&self) -> (ok: bool)
        ensures
            ok == self@.well_formed(),
    {
        if !fits(self.label) || !all_fit(&self.scalars) || !all_fit(&self.points) {
            assert(!self@.well_formed()) by {
                if !label_fits(self.label@) {
                } else if exists|i: int|
                    0 <= i < self.scalars.len() && !label_fits(self.scalars[i]@) {
                    let i = choose|i: int|
                        0 <= i < self.scalars.len() && !label_fits(self.scalars[i]@);
                    assert(self@.scalars[i] == self.scalars[i]@);
                } else {
                    let i = choose|i: int|
                        0 <= i < self.points.len() && !label_fits(self.points[i]@);
                    assert(self@.points[i] == self.points[i]@);
                }
            }
            return false;
        }
        let mut k: usize = 0;
        while k < self.relations.len()
            invariant
                k <= self.relations.len(),
                forall|j: int|
                    0 <= j < k ==> (#[trigger] self@.relations[j]).within(
                        self.scalars@.len() as int,
                        self.points@.len() as int,
                    ),
            decreases self.relations.len() - k,
        {
            let relation = &self.relations[k];
            if relation.lhs >= self.points.len() {
                assert(!self@.relations[k as int].within(
                    self.scalars@.len() as int,
                    self.points@.len() as int,
                ));
                return false;
            }
            let mut i: usize = 0;
            while i < relation.terms.len()
                invariant
                    i <= relation.terms.len(),
                    relation == self.relations@[k as int],
                    k < self.relations.len(),
                    forall|j: int|
                        0 <= j < i ==> 0 <= (#[trigger] relation@.terms[j]).0 < self.scalars@.len()
                            && 0 <= relation@.terms[j].1 < self.points@.len(),
                decreases relation.terms.len() - i,
            {
                let term = relation.terms[i];
                if term.scalar >= self.scalars.len() || term.point >= self.points.len() {
                    assert(relation@.terms[i as int] == (term.scalar as int, term.point as int));
                    assert(!self@.relations[k as int].within(
                        self.scalars@.len() as int,
                        self.points@.len() as int,
                    ));
                    return false;
                }
                i += 1;
            }
            k += 1;
        }
        true
    }
}

/// Make a compact proof of `statement` on `transcript`, for the secret
/// `scalars` and the public `points`, each in the order in which the
/// statement names them. Returned with the proof are the encodings of the
/// points, in the same order.
///
/// Whether the relations hold of the scalars and points is not looked at
/// here: that is for the one who checks the proof to find out.
pub fn prove(
    transcript: &mut ProofTranscript,
    statement: &Statement,
    scalars: &Vec<Scalar>,
    points: &Vec<Point>,
) -> (out: (CompactProof, Vec<CompressedPoint>))
    requires
        statement@.well_formed(),
        scalars.len() == statement@.scalars.len(),
        points.len() == statement@.points.len(),
    ensures
        out.0.responses@.len() == scalars.len(),
        out.1.len() == points.len(),
        forall|i: int| 0 <= i < points.len() ==> (#[trigger] out.1[i])@ == points[i]@,
        compressed_encodings(out.1@) == point_encodings(points@),
        final(transcript)@ == old(transcript)@.push(
            Entry::Proof {
                statement: statement@,
                points: point_encodings(points@),
                accepted: true,
            },
        ),
{
    let mut prover = prover_new(statement.label, &mut transcript.inner);
    let mut scalar_vars: Vec<zkp::toolbox::prover::ScalarVar> = Vec::new();
    let mut i: usize = 0;
    while i < scalars.len()
        invariant
            i <= scalars.len(),
            scalars.len() == statement.scalars.len(),
            scalar_vars.len() == i,
            statement@.well_formed(),
            prover_scalars(prover) == scalar_values(scalars@).take(i as int),
            prover_points(prover) == Seq::<Seq<u8>>::empty(),
            prover_relations(prover) == Seq::<RelationView>::empty(),
            forall|j: int| 0 <= j < i ==> prover_scalar_index(#[trigger] scalar_vars[j]) == j,
        decreases scalars.len() - i,
    {
        assert(statement@.scalars[i as int] == statement.scalars[i as int]@);
        let var = prover_allocate_scalar(&mut prover, statement.scalars[i], &scalars[i]);
        scalar_vars.push(var);
        assert(scalar_values(scalars@).take(i as int).push(scalars[i as int]@) =~= scalar_values(
            scalars@,
        ).take(i + 1));
        i += 1;
    }
    assert(scalar_values(scalars@).take(i as int) =~= scalar_values(scalars@));
    let mut point_vars: Vec<zkp::toolbox::prover::PointVar> = Vec::new();
    let mut compressed: Vec<CompressedPoint> = Vec::new();
    let mut i: usize = 0;
    while i < points.len()
        invariant
            i <= points.len(),
            points.len() == statement.points.len(),
            point_vars.len() == i,
            compressed.len() == i,
            statement@.well_formed(),
            prover_scalars(prover) == scalar_values(scalars@),
            prover_points(prover) == point_encodings(points@).take(i as int),
            prover_relations(prover) == Seq::<RelationView>::empty(),
            forall|j: int| 0 <= j < i ==> prover_point_index(#[trigger] point_vars[j]) == j,
            forall|j: int| 0 <= j < i ==> (#[trigger] compressed[j])@ == points[j]@,
        decreases points.len() - i,
    {
        let point = &points[i];
        proof {
            use_type_invariant(point);
        }
        assert(statement@.points[i as int] == statement.points[i as int]@);
        let (var, encoding) = prover_allocate_point(&mut prover, statement.points[i], point);
        point_vars.push(var);
        compressed.push(encoding);
        assert(point_encodings(points@).take(i as int).push(points[i as int]@) =~= point_encodings(
            points@,
        ).take(i + 1));
        i += 1;
    }
    assert(point_encodings(points@).take(i as int) =~= point_encodings(points@));
    let mut k: usize = 0;
    while k < statement.relations.len()
        invariant
            k <= statement.relations.len(),
            statement@.well_formed(),
            scalar_vars.len() == statement.scalars.len(),
            point_vars.len() == statement.points.len(),
            scalars.len() == scalar_vars.len(),
            points.len() == point_vars.len(),
            prover_scalars(prover) == scalar_values(scalars@),
            prover_points(prover) == point_encodings(points@),
            forall|j: int|
                0 <= j < scalar_vars.len() ==> prover_scalar_index(#[trigger] scalar_vars[j]) == j,
            forall|j: int|
                0 <= j < point_vars.len() ==> prover_point_index(#[trigger] point_vars[j]) == j,
            prover_relations(prover) == statement@.relations.take(k as int),
        decreases statement.relations.len() - k,
    {
        let relation = &statement.relations[k];
        assert(statement@.relations[k as int] == relation@);
        assert(relation@.within(scalar_vars.len() as int, point_vars.len() as int));
        let mut terms: Vec<(zkp::toolbox::prover::ScalarVar, zkp::toolbox::prover::PointVar)> =
            Vec::new();
        let mut t: usize = 0;
        while t < relation.terms.len()
            invariant
                t <= relation.terms.len(),
                terms.len() == t,
                relation@.within(scalar_vars.len() as int, point_vars.len() as int),
                forall|j: int|
                    0 <= j < scalar_vars.len() ==> prover_scalar_index(#[trigger] scalar_vars[j])
                        == j,
                forall|j: int|
                    0 <= j < point_vars.len() ==> prover_point_index(#[trigger] point_vars[j]) == j,
                forall|j: int|
                    0 <= j < t ==> prover_scalar_index((#[trigger] terms[j]).0)
                        == relation.terms[j].scalar && prover_point_index(terms[j].1)
                        == relation.terms[j].point,
            decreases relation.terms.len() - t,
        {
            let term = relation.terms[t];
            assert(relation@.terms[t as int] == (term.scalar as int, term.point as int));
            terms.push((scalar_vars[term.scalar], point_vars[term.point]));
            t += 1;
        }
        assert(prover_terms(terms@) =~= relation@.terms);
        assert(relation.lhs < point_vars.len());
        prover_constrain(&mut prover, point_vars[relation.lhs], terms);
        assert(statement@.relations.take(k as int).push(relation@) =~= statement@.relations.take(
            k + 1,
        ));
        k += 1;
    }
    assert(statement@.relations.take(k as int) =~= statement@.relations);
    // The prover now holds the witness and the statement, and nothing else.
    assert(prover_scalars(prover) == scalar_values(scalars@));
    assert(prover_points(prover) == point_encodings(points@));
    assert(prover_relations(prover) == statement@.relations);
    let made = prover_prove_compact(prover);
    assert(compressed_encodings(compressed@) =~= point_encodings(points@));
    proof {
        transcript.history@ = transcript.history@.push(
            Entry::Proof {
                statement: statement@,
                points: point_encodings(points@),
                accepted: true,
            },
        );
    }
    (made, compressed)
}

/// Make a compact proof as [`prove`] does, if one can be made: `None`, and
/// the transcript left as it is, when the statement is not well formed or
/// does not name as many scalars and points as there are.
pub fn try_prove(
    transcript: &mut ProofTranscript,
    statement: &Statement,
    scalars: &Vec<Scalar>,
    points: &Vec<Point>,
) -> (out: Option<(CompactProof, Vec<CompressedPoint>)>)
    ensures
        out.is_some() <==> statement@.well_formed() && scalars.len() == statement@.scalars.len()
            && points.len() == statement@.points.len(),
        match out {
            Some(made) => {
                &&& made.0.responses@.len() == scalars.len()
                &&& compressed_encodings(made.1@) == point_encodings(points@)
                &&& final(transcript)@ == old(transcript)@.push(
                    Entry::Proof {
                        statement: statement@,
                        points: point_encodings(points@),
                        accepted: true,
                    },
                )
            },
            None => final(transcript)@ == old(transcript)@,
        },
{
    if statement.is_well_formed() && scalars.len() == statement.scalars.len() && points.len()
        == statement.points.len() {
        Some(prove(transcript, statement, scalars, points))
    } else {
        None
    }
}

/// Whether none of `points` is the encoding of the identity.
pub open spec fn none_is_identity(points: Seq<Seq<u8>>) -> bool {
    forall|i: int| 0 <= i < points.len() ==> !is_identity_encoding(#[trigger] points[i])
}

/// Whether `verdict` is what the proof system said of `proof`: there is a
/// verifier that counts the scalars of `statement`, holds `points` and the
/// relations of `statement`, and answers `verdict` to the challenge and the
/// responses of `proof`.
pub open spec fn verifier_said(
    statement: StatementView,
    points: Seq<Seq<u8>>,
    proof: CompactProof,
    verdict: bool,
) -> bool {
    exists|verifier: zkp::toolbox::verifier::Verifier|
        verifier_scalars(verifier) == statement.scalars.len() && verifier_points(verifier)
            == points && verifier_relations(verifier) == statement.relations
            && #[trigger] verifier_accepts(
            verifier,
            proof.challenge@,
            scalar_values(proof.responses@),
        ) == verdict
}

/// What checking `proof` of `statement` for `points` comes to. Where the
/// statement is well formed and names as many points as there are, and none
/// of them is the identity, the proof is handed to the proof system and
/// `accepted` is what that says. Otherwise the proof is rejected.
pub open spec fn proof_checked(
    statement: StatementView,
    points: Seq<Seq<u8>>,
    proof: CompactProof,
    accepted: bool,
) -> bool {
    if statement.well_formed() && points.len() == statement.points.len() && none_is_identity(
        points,
    ) {
        verifier_said(statement, points, proof, accepted)
    } else {
        !accepted
    }
}

/// Whether `statement` can be checked for `points`: it is well formed and
/// names as many points as there are.
pub open spec fn checkable(statement: StatementView, points: Seq<CompressedPoint>) -> bool {
    statement.well_formed() && points.len() == statement.points.len()
}

/// Check a compact proof of `statement` on `transcript`, for the public
/// `points` in the order in which the statement names them.
///
/// A proof is rejected if the statement is not well formed or does not name
/// as many points as there are, or if one of `points` is the identity.
/// Otherwise the statement and the points are handed to the proof system,
/// and the proof is accepted if and only if that accepts it; it accepts
/// only a proof that holds one response for each scalar of the statement,
/// for points that all decode. Nothing is put into the transcript for a
/// statement that cannot be checked.
pub fn verify(
    transcript: &mut ProofTranscript,
    statement: &Statement,
    points: &Vec<CompressedPoint>,
    proof: &CompactProof,
) -> (accepted: bool)
    ensures
        proof_checked(statement@, compressed_encodings(points@), *proof, accepted),
        accepted ==> checkable(statement@, points@),
        accepted ==> proof.responses@.len() == statement@.scalars.len(),
        accepted ==> forall|i: int|
            0 <= i < points.len() ==> is_ristretto_encoding(#[trigger] points[i]@)
                && !is_identity_encoding(points[i]@),
        final(transcript)@ == (if checkable(statement@, points@) {
            old(transcript)@.push(
                Entry::Proof {
                    statement: statement@,
                    points: compressed_encodings(points@),
                    accepted,
                },
            )
        } else {
            old(transcript)@
        }),
{
    if !statement.is_well_formed() || points.len() != statement.points.len() {
        return false;
    }
    let accepted = verify_on(&mut transcript.inner, statement, points, proof);
    proof {
        transcript.history@ = transcript.history@.push(
            Entry::Proof { statement: statement@, points: compressed_encodings(points@), accepted },
        );
    }
    accepted
}

/// The check of [`verify`], on the hash state alone.
fn verify_on(
    transcript: &mut merlin::Transcript,
    statement: &Statement,
    points: &Vec<CompressedPoint>,
    proof: &CompactProof,
) -> (accepted: bool)
    requires
        statement@.well_formed(),
        points.len() == statement@.points.len(),
    ensures
        proof_checked(statement@, compressed_encodings(points@), *proof, accepted),
        accepted ==> proof.responses@.len() == statement@.scalars.len(),
        accepted ==> forall|i: int|
            0 <= i < points.len() ==> is_ristretto_encoding(#[trigger] points[i]@)
                && !is_identity_encoding(points[i]@),
{
    let mut verifier = verifier_new(statement.label, transcript);
    let mut scalar_vars: Vec<zkp::toolbox::verifier::ScalarVar> = Vec::new();
    let mut i: usize = 0;
    while i < statement.scalars.len()
        invariant
            i <= statement.scalars.len(),
            scalar_vars.len() == i,
            statement@.well_formed(),
            verifier_scalars(verifier) == i,
            verifier_points(verifier) == Seq::<Seq<u8>>::empty(),
            verifier_relations(verifier) == Seq::<RelationView>::empty(),
            forall|j: int| 0 <= j < i ==> verifier_scalar_index(#[trigger] scalar_vars[j]) == j,
        decreases statement.scalars.len() - i,
    {
        assert(statement@.scalars[i as int] == statement.scalars[i as int]@);
        let var = verifier_allocate_scalar(&mut verifier, statement.scalars[i]);
        scalar_vars.push(var);
        i += 1;
    }
    let mut point_vars: Vec<zkp::toolbox::verifier::PointVar> = Vec::new();
    let mut i: usize = 0;
    while i < points.len()
        invariant
            i <= points.len(),
            points.len() == statement.points.len(),
            point_vars.len() == i,
            statement@.well_formed(),
            verifier_scalars(verifier) == statement.scalars.len(),
            verifier_points(verifier).len() == i,
            verifier_relations(verifier) == Seq::<RelationView>::empty(),
            forall|j: int| 0 <= j < i ==> verifier_point_index(#[trigger] point_vars[j]) == j,
            forall|j: int| 0 <= j < i ==> (#[trigger] verifier_points(verifier)[j]) == points[j]@,
            forall|j: int| 0 <= j < i ==> !is_identity_encoding(#[trigger] points[j]@),
        decreases points.len() - i,
    {
        assert(statement@.points[i as int] == statement.points[i as int]@);
        match verifier_allocate_point(&mut verifier, statement.points[i], &points[i]) {
            Some(var) => {
                point_vars.push(var);
            },
            None => {
                assert(!none_is_identity(compressed_encodings(points@))) by {
                    assert(compressed_encodings(points@)[i as int] == points[i as int]@);
                }
                return false;
            },
        }
        i += 1;
    }
    let mut k: usize = 0;
    while k < statement.relations.len()
        invariant
            k <= statement.relations.len(),
            statement@.well_formed(),
            scalar_vars.len() == statement.scalars.len(),
            point_vars.len() == statement.points.len(),
            points.len() == statement.points.len(),
            verifier_scalars(verifier) == scalar_vars.len(),
            verifier_points(verifier).len() == point_vars.len(),
            forall|j: int|
                0 <= j < scalar_vars.len() ==> verifier_scalar_index(#[trigger] scalar_vars[j])
                    == j,
            forall|j: int|
                0 <= j < point_vars.len() ==> verifier_point_index(#[trigger] point_vars[j]) == j,
            forall|j: int|
                0 <= j < points.len() ==> (#[trigger] verifier_points(verifier)[j]) == points[j]@,
            forall|j: int| 0 <= j < points.len() ==> !is_identity_encoding(#[trigger] points[j]@),
            verifier_relations(verifier) == statement@.relations.take(k as int),
        decreases statement.relations.len() - k,
    {
        let relation = &statement.relations[k];
        assert(statement@.relations[k as int] == relation@);
        assert(relation@.within(scalar_vars.len() as int, point_vars.len() as int));
        let mut terms: Vec<(zkp::toolbox::verifier::ScalarVar, zkp::toolbox::verifier::PointVar)> =
            Vec::new();
        let mut t: usize = 0;
        while t < relation.terms.len()
            invariant
                t <= relation.terms.len(),
                terms.len() == t,
                relation@.within(scalar_vars.len() as int, point_vars.len() as int),
                forall|j: int|
                    0 <= j < scalar_vars.len() ==> verifier_scalar_index(
                        #[trigger] scalar_vars[j],
                    ) == j,
                forall|j: int|
                    0 <= j < point_vars.len() ==> verifier_point_index(#[trigger] point_vars[j])
                        == j,
                forall|j: int|
                    0 <= j < t ==> verifier_scalar_index((#[trigger] terms[j]).0)
                        == relation.terms[j].scalar && verifier_point_index(terms[j].1)
                        == relation.terms[j].point,
            decreases relation.terms.len() - t,
        {
            let term = relation.terms[t];
            assert(relation@.terms[t as int] == (term.scalar as int, term.point as int));
            terms.push((scalar_vars[term.scalar], point_vars[term.point]));
            t += 1;
        }
        assert(verifier_terms(terms@) =~= relation@.terms);
        assert(relation.lhs < point_vars.len());
        verifier_constrain(&mut verifier, point_vars[relation.lhs], terms);
        assert(statement@.relations.take(k as int).push(relation@) =~= statement@.relations.take(
            k + 1,
        ));
        k += 1;
    }
    assert(statement@.relations.take(k as int) =~= statement@.relations);
    // The verifier now holds the points and the statement, and nothing else.
    assert(verifier_points(verifier) =~= compressed_encodings(points@));
    assert(verifier_relations(verifier) == statement@.relations);
    let ghost asked = verifier;
    let ghost allocated = verifier_points(verifier);
    let accepted = verifier_verify_compact(verifier, proof);
    assert(accepted ==> forall|i: int|
        0 <= i < points.len() ==> is_ristretto_encoding(#[trigger] points[i]@)) by {
        assert(forall|i: int| 0 <= i < points.len() ==> allocated[i] == #[trigger] points[i]@);
    }
    assert(verifier_said(statement@, compressed_encodings(points@), *proof, accepted)) by {
        assert(verifier_accepts(asked, proof.challenge@, scalar_values(proof.responses@))
            == accepted);
    }
    accepted
}

/// A compact proof: the challenge, and one response for each secret scalar.
#[derive(Clone, Debug)]
pub struct CompactProof {
    pub challenge: Scalar,
    pub responses: Vec<Scalar>,
}

/// `Prover` of `zkp`: it collects the scalars, the points and the relations
/// of a statement, and borrows the transcript that the proof is made on.
#[verifier::external_type_specification]
#[verifier::external_body]
pub struct ExProver<'a>(zkp::toolbox::prover::Prover<'a>);

/// `ScalarVar` of `zkp`'s prover: the position of a scalar in a prover.
#[verifier::external_type_specification]
#[verifier::external_body]
pub struct ExProverScalarVar(zkp::toolbox::prover::ScalarVar);

/// `PointVar` of `zkp`'s prover: the position of a point in a prover.
#[verifier::external_type_specification]
#[verifier::external_body]
pub struct ExProverPointVar(zkp::toolbox::prover::PointVar);

/// `Verifier` of `zkp`: it counts the scalars and collects the points and
/// the relations of a statement, and borrows the transcript that the proof
/// is checked on.
#[verifier::external_type_specification]
#[verifier::external_body]
pub struct ExVerifier<'a>(zkp::toolbox::verifier::Verifier<'a>);

/// `ScalarVar` of `zkp`'s verifier: the position of a scalar in a verifier.
#[verifier::external_type_specification]
#[verifier::external_body]
pub struct ExVerifierScalarVar(zkp::toolbox::verifier::ScalarVar);

/// `PointVar` of `zkp`'s verifier: the position of a point in a verifier.
#[verifier::external_type_specification]
#[verifier::external_body]
pub struct ExVerifierPointVar(zkp::toolbox::verifier::PointVar);

/// The values of the scalars allocated in a prover, in order.
pub uninterp spec fn prover_scalars(prover: zkp::toolbox::prover::Prover) -> Seq<nat>;

/// The encodings of the points allocated in a prover, in order.
pub uninterp spec fn prover_points(prover: zkp::toolbox::prover::Prover) -> Seq<Seq<u8>>;

/// The relations that a prover was constrained with, in order.
pub uninterp spec fn prover_relations(prover: zkp::toolbox::prover::Prover) -> Seq<RelationView>;

/// The position of the scalar that a prover's variable stands for.
pub uninterp spec fn prover_scalar_index(var: zkp::toolbox::prover::ScalarVar) -> int;

/// The position of the point that a prover's variable stands for.
pub uninterp spec fn prover_point_index(var: zkp::toolbox::prover::PointVar) -> int;

/// The number of scalars allocated in a verifier.
pub uninterp spec fn verifier_scalars(verifier: zkp::toolbox::verifier::Verifier) -> nat;

/// The bytes of the points allocated in a verifier, in order.
pub uninterp spec fn verifier_points(verifier: zkp::toolbox::verifier::Verifier) -> Seq<Seq<u8>>;

/// The relations that a verifier was constrained with, in order.
pub uninterp spec fn verifier_relations(verifier: zkp::toolbox::verifier::Verifier) -> Seq<
    RelationView,
>;

/// The position of the scalar that a verifier's variable stands for.
pub uninterp spec fn verifier_scalar_index(var: zkp::toolbox::verifier::ScalarVar) -> int;

/// The position of the point that a verifier's variable stands for.
pub uninterp spec fn verifier_point_index(var: zkp::toolbox::verifier::PointVar) -> int;

/// Whether a verifier accepts the compact proof with the challenge
/// `challenge` and the responses `responses`: what `Verifier::verify_compact`
/// answers, which draws no randomness and so depends on the verifier, with
/// the transcript that it borrows, and on the proof alone.
pub uninterp spec fn verifier_accepts(
    verifier: zkp::toolbox::verifier::Verifier,
    challenge: nat,
    responses: Seq<nat>,
) -> bool;

/// The terms that a list of a prover's variables stands for.
pub open spec fn prover_terms(
    terms: Seq<(zkp::toolbox::prover::ScalarVar, zkp::toolbox::prover::PointVar)>,
) -> Seq<(int, int)> {
    Seq::new(
        terms.len(),
        |i: int| (prover_scalar_index(terms[i].0), prover_point_index(terms[i].1)),
    )
}

/// The terms that a list of a verifier's variables stands for.
pub open spec fn verifier_terms(
    terms: Seq<(zkp::toolbox::verifier::ScalarVar, zkp::toolbox::verifier::PointVar)>,
) -> Seq<(int, int)> {
    Seq::new(
        terms.len(),
        |i: int| (verifier_scalar_index(terms[i].0), verifier_point_index(terms[i].1)),
    )
}

/// Whether every one of `relations` speaks only of the first `scalars`
/// scalars and the first `points` points.
pub open spec fn relations_within(relations: Seq<RelationView>, scalars: int, points: int) -> bool {
    forall|k: int| 0 <= k < relations.len() ==> (#[trigger] relations[k]).within(scalars, points)
}

/// `Prover::new` of `zkp`: a prover for the statement with the label
/// `label`, on `transcript`, with nothing allocated and no relation yet. The
/// label is appended to the transcript, which panics on more than
/// `u32::MAX` bytes.
#[verifier::external_body]
fn prover_new<'a>(label: &'static str, transcript: &'a mut merlin::Transcript) -> (prover:
    zkp::toolbox::prover::Prover<'a>)
    requires
        label_fits(label@),
    ensures
        prover_scalars(prover) == Seq::<nat>::empty(),
        prover_points(prover) == Seq::<Seq<u8>>::empty(),
        prover_relations(prover) == Seq::<RelationView>::empty(),
{
    zkp::toolbox::prover::Prover::new(label.as_bytes(), transcript)
}

/// `Prover::allocate_scalar` of `zkp`: the label is appended to the
/// transcript, the scalar is put behind those allocated before, and the
/// variable returned stands for its position.
#[verifier::external_body]
fn prover_allocate_scalar(
    prover: &mut zkp::toolbox::prover::Prover,
    label: &'static str,
    scalar: &Scalar,
) -> (var: zkp::toolbox::prover::ScalarVar)
    requires
        label_fits(label@),
    ensures
        prover_scalars(*final(prover)) == prover_scalars(*old(prover)).push(scalar@),
        prover_points(*final(prover)) == prover_points(*old(prover)),
        prover_relations(*final(prover)) == prover_relations(*old(prover)),
        prover_scalar_index(var) == prover_scalars(*old(prover)).len(),
{
    let assignment = curve25519_dalek_ng::scalar::Scalar::from_bits(scalar.to_bytes());
    prover.allocate_scalar(label.as_bytes(), assignment)
}

/// `Prover::allocate_point` of `zkp`: the label and the point's encoding are
/// appended to the transcript, the point is put behind those allocated
/// before, the variable returned stands for its position, and the compressed
/// point returned is the point's encoding.
#[verifier::external_body]
fn prover_allocate_point(
    prover: &mut zkp::toolbox::prover::Prover,
    label: &'static str,
    point: &Point,
) -> (out: (zkp::toolbox::prover::PointVar, CompressedPoint))
    requires
        label_fits(label@),
        point.valid(),
    ensures
        prover_points(*final(prover)) == prover_points(*old(prover)).push(point@),
        prover_scalars(*final(prover)) == prover_scalars(*old(prover)),
        prover_relations(*final(prover)) == prover_relations(*old(prover)),
        prover_point_index(out.0) == prover_points(*old(prover)).len(),
        out.1@ == point@,
{
    let assignment = CompressedRistretto(point.compress().to_bytes()).decompress().unwrap();
    let (var, compressed) = prover.allocate_point(label.as_bytes(), assignment);
    (var, CompressedPoint::from_bytes(compressed.to_bytes()))
}

/// `Prover::constrain` of `zkp` (its `SchnorrCS`): the relation is put
/// behind those given before.
#[verifier::external_body]
fn prover_constrain(
    prover: &mut zkp::toolbox::prover::Prover,
    lhs: zkp::toolbox::prover::PointVar,
    terms: Vec<(zkp::toolbox::prover::ScalarVar, zkp::toolbox::prover::PointVar)>,
)
    ensures
        prover_relations(*final(prover)) == prover_relations(*old(prover)).push(
            RelationView { lhs: prover_point_index(lhs), terms: prover_terms(terms@) },
        ),
        prover_scalars(*final(prover)) == prover_scalars(*old(prover)),
        prover_points(*final(prover)) == prover_points(*old(prover)),
{
    prover.constrain(lhs, terms)
}

/// `Prover::prove_compact` of `zkp`. It looks up every variable of every
/// relation among what was allocated, and panics on one that is not there.
/// The proof holds one response for each scalar; which ones depends on
/// randomness drawn inside, so nothing more is claimed of them.
#[verifier::external_body]
fn prover_prove_compact(prover: zkp::toolbox::prover::Prover) -> (proof: CompactProof)
    requires
        relations_within(
            prover_relations(prover),
            prover_scalars(prover).len() as int,
            prover_points(prover).len() as int,
        ),
    ensures
        proof.responses@.len() == prover_scalars(prover).len(),
{
    let proof = prover.prove_compact();
    CompactProof {
        challenge: Scalar::from_encoding(proof.challenge.to_bytes()),
        responses: proof.responses.iter().map(|s| Scalar::from_encoding(s.to_bytes())).collect(),
    }
}

/// `Verifier::new` of `zkp`: a verifier for the statement with the label
/// `label`, on `transcript`, with nothing allocated and no relation yet. The
/// label is appended to the transcript, which panics on more than
/// `u32::MAX` bytes.
#[verifier::external_body]
fn verifier_new<'a>(label: &'static str, transcript: &'a mut merlin::Transcript) -> (verifier:
    zkp::toolbox::verifier::Verifier<'a>)
    requires
        label_fits(label@),
    ensures
        verifier_scalars(verifier) == 0,
        verifier_points(verifier) == Seq::<Seq<u8>>::empty(),
        verifier_relations(verifier) == Seq::<RelationView>::empty(),
{
    zkp::toolbox::verifier::Verifier::new(label.as_bytes(), transcript)
}

/// `Verifier::allocate_scalar` of `zkp`: the label is appended to the
/// transcript, one more scalar is counted, and the variable returned stands
/// for its position.
#[verifier::external_body]
fn verifier_allocate_scalar(
    verifier: &mut zkp::toolbox::verifier::Verifier,
    label: &'static str,
) -> (var: zkp::toolbox::verifier::ScalarVar)
    requires
        label_fits(label@),
    ensures
        verifier_scalars(*final(verifier)) == verifier_scalars(*old(verifier)) + 1,
        verifier_points(*final(verifier)) == verifier_points(*old(verifier)),
        verifier_relations(*final(verifier)) == verifier_relations(*old(verifier)),
        verifier_scalar_index(var) == verifier_scalars(*old(verifier)),
{
    verifier.allocate_scalar(label.as_bytes())
}

/// `Verifier::allocate_point` of `zkp`. It refuses the encoding of the
/// identity and changes nothing then; otherwise the label and the 32 bytes
/// are appended to the transcript, the bytes are put behind the points
/// allocated before, and the variable returned stands for their position.
#[verifier::external_body]
fn verifier_allocate_point(
    verifier: &mut zkp::toolbox::verifier::Verifier,
    label: &'static str,
    point: &CompressedPoint,
) -> (var: Option<zkp::toolbox::verifier::PointVar>)
    requires
        label_fits(label@),
    ensures
        var.is_none() <==> is_identity_encoding(point@),
        verifier_points(*final(verifier)) == if var.is_some() {
            verifier_points(*old(verifier)).push(point@)
        } else {
            verifier_points(*old(verifier))
        },
        verifier_scalars(*final(verifier)) == verifier_scalars(*old(verifier)),
        verifier_relations(*final(verifier)) == verifier_relations(*old(verifier)),
        var matches Some(v) ==> verifier_point_index(v) == verifier_points(*old(verifier)).len(),
{
    verifier.allocate_point(label.as_bytes(), CompressedRistretto(point.to_bytes())).ok()
}

/// `Verifier::constrain` of `zkp` (its `SchnorrCS`): the relation is put
/// behind those given before.
#[verifier::external_body]
fn verifier_constrain(
    verifier: &mut zkp::toolbox::verifier::Verifier,
    lhs: zkp::toolbox::verifier::PointVar,
    terms: Vec<(zkp::toolbox::verifier::ScalarVar, zkp::toolbox::verifier::PointVar)>,
)
    ensures
        verifier_relations(*final(verifier)) == verifier_relations(*old(verifier)).push(
            RelationView { lhs: verifier_point_index(lhs), terms: verifier_terms(terms@) },
        ),
        verifier_scalars(*final(verifier)) == verifier_scalars(*old(verifier)),
        verifier_points(*final(verifier)) == verifier_points(*old(verifier)),
{
    verifier.constrain(lhs, terms)
}

/// `Verifier::verify_compact` of `zkp`, asked whether it accepts. It looks
/// up every variable of every relation among what was allocated, and panics
/// on one that is not there. It rejects a proof that does not hold one
/// response for each scalar, and rejects when one of the points does not
/// decode. Its answer is named [`verifier_accepts`]: it draws no randomness,
/// so the answer depends on the verifier and the proof alone.
#[verifier::external_body]
fn verifier_verify_compact(
    verifier: zkp::toolbox::verifier::Verifier,
    proof: &CompactProof,
) -> (accepted: bool)
    requires
        relations_within(
            verifier_relations(verifier),
            verifier_scalars(verifier) as int,
            verifier_points(verifier).len() as int,
        ),
    ensures
        accepted == verifier_accepts(
            verifier,
            proof.challenge@,
            scalar_values(proof.responses@),
        ),
        accepted ==> proof.responses@.len() == verifier_scalars(verifier),
        accepted ==> forall|i: int|
            0 <= i < verifier_points(verifier).len() ==> is_ristretto_encoding(
                #[trigger] verifier_points(verifier)[i],
            ),
{
    let challenge = curve25519_dalek_ng::scalar::Scalar::from_bits(proof.challenge.to_bytes());
    let responses = proof.responses.iter().map(
        |s| curve25519_dalek_ng::scalar::Scalar::from_bits(s.to_bytes()),
    ).collect();
    verifier.verify_compact(&zkp::CompactProof { challenge, responses }).is_ok()
}

} // verus!
