//! The proof transcript: a running hash of everything that a proof is bound
//! to.
//!
//! The hashing is done by `merlin`. A [`ProofTranscript`] holds the hash
//! state and, as a ghost, the history of what was put into it. That history
//! is kept here, alongside each call: nothing is read back from the hash
//! state.

use crate::epoch::Epoch;
use crate::statement::StatementView;
use byteorder::{ByteOrder, LittleEndian};
use vstd::prelude::*;
use vstd::string::StringSliceAdditionalSpecFns;

verus! {

/// `Transcript` of `merlin`: the hash state. Nothing is known of what is
/// inside.
#[verifier::external_type_specification]
#[verifier::external_body]
pub struct ExMerlinTranscript(merlin::Transcript);

/// One step in the history of a transcript.
pub enum Entry {
    /// A labelled message was appended.
    Message { label: Seq<u8>, message: Seq<u8> },
    /// A compact proof of `statement`, about the points with the encodings
    /// `points`, was made on the transcript (`accepted` is then true), or was
    /// checked on it and accepted or rejected.
    Proof { statement: StatementView, points: Seq<Seq<u8>>, accepted: bool },
    /// A proof that the value in `commitment`, a commitment with the base
    /// `base`, fits in `bits` bits was asked for or checked on the
    /// transcript; `accepted` tells whether it was made, or checked and
    /// accepted.
    RangeProof { base: Seq<u8>, commitment: Seq<u8>, bits: nat, accepted: bool },
}

/// The label under which a transcript takes its domain separator.
pub open spec fn dom_sep_label() -> Seq<u8> {
    "dom-sep".spec_bytes()
}

/// The domain separator of this protocol suite.
pub open spec fn protocol_name() -> Seq<u8> {
    "Danake v0.1".spec_bytes()
}

/// The label under which an epoch is appended.
pub open spec fn epoch_label() -> Seq<u8> {
    "epoch".spec_bytes()
}

/// The `count` low bytes of `x`, least significant first.
pub open spec fn le_bytes(x: nat, count: nat) -> Seq<u8>
    decreases count,
{
    if count == 0 {
        Seq::empty()
    } else {
        seq![(x % 256) as u8] + le_bytes(x / 256, (count - 1) as nat)
    }
}

/// The number that stands for `x` in 64-bit two's complement.
pub open spec fn twos_complement(x: i64) -> nat {
    if x >= 0 {
        x as nat
    } else {
        (x + 0x1_0000_0000_0000_0000) as nat
    }
}

/// The 16 bytes that an epoch is appended as: the epoch length in seconds
/// and the epoch's index, 8 bytes each, least significant byte first.
pub open spec fn epoch_message(epoch: Epoch) -> Seq<u8> {
    le_bytes(epoch.spec_params().duration() as nat, 8) + le_bytes(
        twos_complement(epoch.spec_index() as i64),
        8,
    )
}

/// A proof transcript.
pub struct ProofTranscript {
    pub(crate) inner: merlin::Transcript,
    pub(crate) history: Ghost<Seq<Entry>>,
}

impl ProofTranscript {
    /// What has been put into the transcript, in order.
    pub open(crate) spec fn view(self) -> Seq<Entry> {
        self.history@
    }

    /// A new transcript with the domain separator `label`.
    pub fn new(label: &'static [u8]) -> (transcript: ProofTranscript)
        requires
            label@.len() <= u32::MAX,
        ensures
            transcript@ == seq![Entry::Message { label: dom_sep_label(), message: label@ }],
    {
        let inner = merlin_new(label);
        let ghost start = seq![Entry::Message { label: dom_sep_label(), message: label@ }];
        ProofTranscript { inner, history: Ghost(start) }
    }

    /// Append `message` under `label`.
    pub fn append_message(&mut self, label: &'static [u8], message: &[u8])
        requires
            message@.len() <= u32::MAX,
        ensures
            final(self)@ == old(self)@.push(Entry::Message { label: label@, message: message@ }),
    {
        merlin_append_message(&mut self.inner, label, message);
        self.history = Ghost(
            self.history@.push(Entry::Message { label: label@, message: message@ }),
        );
    }
}

/// How this protocol suite writes to a transcript.
pub trait TranscriptProtocol {
    /// What has been put into the transcript, in order.
    spec fn entries(&self) -> Seq<Entry>;

    /// Append the domain separator of this protocol suite.
    fn dom_sep(&mut self)
        ensures
            final(self).entries() == old(self).entries().push(
                Entry::Message { label: dom_sep_label(), message: protocol_name() },
            ),
    ;

    /// Append an epoch: its parameters and its index.
    fn append_epoch(&mut self, epoch: Epoch)
        ensures
            final(self).entries() == old(self).entries().push(
                Entry::Message { label: epoch_label(), message: epoch_message(epoch) },
            ),
    ;
}

impl TranscriptProtocol for ProofTranscript {
    open spec fn entries(&self) -> Seq<Entry> {
        self@
    }

    fn dom_sep(&mut self) {
        proof {
            reveal_strlit("Danake v0.1");
            vstd::string::is_ascii_spec_bytes("Danake v0.1");
        }
        self.append_message("dom-sep".as_bytes(), "Danake v0.1".as_bytes());
    }

    fn append_epoch(&mut self, epoch: Epoch) {
        let bytes = epoch_bytes(&epoch);
        self.append_message("epoch".as_bytes(), bytes.as_slice());
    }
}

/// The 16 bytes that an epoch is appended as.
pub fn epoch_bytes(epoch: &Epoch) -> (bytes: [u8; 16])
    ensures
        bytes@ == epoch_message(*epoch),
{
    let low = u64_le_bytes(epoch.params().seconds());
    let high = i64_le_bytes(epoch.index());
    let mut bytes = [0u8; 16];
    let mut i: usize = 0;
    while i < 8
        invariant
            i <= 8,
            forall|j: int| 0 <= j < i ==> bytes@[j] == low@[j],
            forall|j: int| 0 <= j < i ==> bytes@[8 + j] == high@[j],
        decreases 8 - i,
    {
        bytes[i] = low[i];
        bytes[i + 8] = high[i];
        i += 1;
    }
    assert(bytes@ =~= low@ + high@);
    bytes
}

/// `Transcript::new` of `merlin`. It panics on a label of more than
/// `u32::MAX` bytes. Nothing is claimed of the hash state.
#[verifier::external_body]
fn merlin_new(label: &'static [u8]) -> (transcript: merlin::Transcript)
    requires
        label@.len() <= u32::MAX,
{
    merlin::Transcript::new(label)
}

/// `Transcript::append_message` of `merlin`. It panics on a message of more
/// than `u32::MAX` bytes. Nothing is claimed of the hash state.
#[verifier::external_body]
fn merlin_append_message(transcript: &mut merlin::Transcript, label: &'static [u8], message: &[u8])
    requires
        message@.len() <= u32::MAX,
{
    transcript.append_message(label, message)
}

/// `LittleEndian::write_u64` of `byteorder` on a buffer of 8 bytes: the
/// bytes of `x`, least significant first.
#[verifier::external_body]
fn u64_le_bytes(x: u64) -> (bytes: [u8; 8])
    ensures
        bytes@ == le_bytes(x as nat, 8),
{
    let mut bytes = [0u8; 8];
    LittleEndian::write_u64(&mut bytes, x);
    bytes
}

/// `LittleEndian::write_i64` of `byteorder` on a buffer of 8 bytes: the
/// bytes of `x` in two's complement, least significant first.
#[verifier::external_body]
fn i64_le_bytes(x: i64) -> (bytes: [u8; 8])
    ensures
        bytes@ == le_bytes(twos_complement(x), 8),
{
    let mut bytes = [0u8; 8];
    LittleEndian::write_i64(&mut bytes, x);
    bytes
}

} // verus!
