//! The recursive proof-composition engine of a zkVM prover, as a verified
//! library: the orchestration, caching and reduction protocol that folds many
//! independently generated shard proofs, plus proofs of previously verified
//! sub-computations, into a single succinct root proof.
//!
//! The pieces, leaves first:
//! - [`height`]: the layer-size chain of the binary reduction tree and the
//!   precomputed expected root height.
//! - [`merkle`]: the Merkle commitment over the allow-list of verifying keys,
//!   with inclusion-proof opening and verification.
//! - [`digest`]: the order-sensitive hash chain folding deferred proofs into one
//!   fixed-size digest.
//! - [`shape`] and [`cache`]: structural witness fingerprints and the bounded
//!   least-recently-used cache of compiled verifier programs.
//! - [`turn`]: the turn-based ordering primitive that lets racing worker pools
//!   feed a strictly-ordered consumer.
//! - [`coordinator`] and [`pipeline`]: the layer coordinator of the self-feeding
//!   reduction pipeline and the exact schedule it produces — one complete root,
//!   at the expected height, deterministic whatever the worker schedule.
//! - [`witness`] and [`prover`]: the witnesses the pipeline consumes and the
//!   engine that builds them.
//!
//! Proof generation itself — circuit compilation, circuit execution and the
//! base STARK prover — is an external collaborator: the library plans and
//! checks, the caller performs, keyed by the plain handles and digests the
//! types here carry.

pub mod cache;
pub mod coordinator;
pub mod digest;
pub mod height;
pub mod merkle;
pub mod pipeline;
pub mod prover;
pub mod shape;
pub mod turn;
pub mod types;
pub mod witness;

use vstd::prelude::*;

verus! {

/// The merge arity of the reduction pipeline: the layer coordinator merges
/// proved results two at a time.
pub const REDUCE_BATCH_SIZE: usize = 2;

} // verus!
