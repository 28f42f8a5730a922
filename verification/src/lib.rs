//! Anonymous, balance-carrying wallet credentials.
//!
//! An issuer holds a secret key for each epoch and blindly issues wallet
//! tokens, tops them up by a public amount, and rolls them over to the next
//! epoch's key, without learning a wallet's balance or linking its uses.
//! Each wallet can be spent once: spending reveals its nullifier.
//!
//! The modules, from the leaves to the root:
//!
//! - [`epoch`]: time windows and their state at a moment;
//! - [`scalar`], [`point`], [`constants`]: the ristretto255 group, computed
//!   by `curve25519-dalek-ng`, with every result named in the contracts;
//! - [`algebra`]: the laws of a group, as the hypothesis of the theorems on
//!   what the protocols compute;
//! - [`transcript`]: the transcript that proofs are bound to, hashed by
//!   `merlin`;
//! - [`statement`]: statements of knowledge and compact proofs of them, made
//!   and checked by `zkp`;
//! - [`range`]: commitments and range proofs, made and checked by
//!   `bulletproofs`;
//! - [`tag`], [`nullifier`], [`error`]: the MAC tag, a set of spent
//!   nullifiers, and the reasons for a rejection;
//! - [`wallet`]: the wallet, the issuer's keys, and the three protocols.

pub mod algebra;
pub mod constants;
pub mod epoch;
pub mod error;
pub mod nullifier;
pub mod point;
pub mod range;
pub mod scalar;
pub mod statement;
pub mod tag;
pub mod transcript;
pub mod wallet;

pub use epoch::{Epoch, EpochParameters, EpochState};
pub use error::Error;
pub use nullifier::NullifierSet;
pub use point::{Ciphertext, CompressedPoint, Point};
pub use scalar::Scalar;
pub use tag::Tag;
pub use transcript::{ProofTranscript, TranscriptProtocol};
