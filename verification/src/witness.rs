use vstd::prelude::*;

verus! {

use crate::types::SP1ReduceProof;

/// The witness for one shard-proof verification step (a "lift"): a batch of
/// shard proofs under one program verifying key, plus the values the recursive
/// circuit checks against. The opaque proof objects stay with the caller,
/// referenced by handle.
pub struct SP1RecursionWitnessValues {
    /// Content digest of the program's verifying key.
    pub vk_digest: [u32; 8],
    /// Handles of the shard proofs this witness verifies, in order.
    pub shard_proofs: Vec<u64>,
    /// Whether this witness alone completes the composition.
    pub is_complete: bool,
    /// Whether this batch starts with the first shard of the run.
    pub is_first_shard: bool,
    /// The committed root of the allow-list of verifying keys.
    pub vk_root: [u32; 8],
    /// The deferred-proof digest reconstructed before this batch.
    pub reconstruct_deferred_digest: [u32; 8],
}

/// The allow-list openings embedded in a witness so the recursive circuit can
/// check each referenced verifying key against the fixed committed root.
pub struct SP1MerkleProofWitnessValues {
    /// The committed root of the allow-list.
    pub root: [u32; 8],
    /// The claimed leaf digest for each referenced verifying key.
    pub values: Vec<[u32; 8]>,
    /// The leaf index chosen for each referenced verifying key.
    pub indices: Vec<usize>,
    /// The sibling path opened from the tree for each index.
    pub vk_merkle_proofs: Vec<Vec<[u32; 8]>>,
}

/// The witness for one deferred-proof verification step: a batch of previously
/// compressed sub-proofs to re-verify inside the circuit, with the running
/// deferred digest at which the batch starts.
pub struct SP1DeferredWitnessValues {
    /// The (verifying key, proof) pairs of the batch, in order.
    pub vks_and_proofs: Vec<SP1ReduceProof>,
    /// Allow-list openings for the batch's verifying keys.
    pub vk_merkle_data: SP1MerkleProofWitnessValues,
    /// The deferred digest reconstructed before this batch.
    pub start_reconstruct_deferred_digest: [u32; 8],
    /// A deferred witness never completes the composition by itself.
    pub is_complete: bool,
    /// Content digest of the verifying key of the program being proven.
    pub sp1_vk_digest: [u32; 8],
}

/// The witness for one merge step: a small list of (verifying key, proof) pairs
/// to merge, plus the completeness flag.
pub struct SP1CompressWitnessValues {
    /// The (verifying key, proof) pairs to merge, in index order.
    pub vks_and_proofs: Vec<SP1ReduceProof>,
    /// Whether the merged witness is the complete root.
    pub is_complete: bool,
}

/// A merge witness together with its allow-list openings.
pub struct SP1CompressWithVKeyWitnessValues {
    pub compress_val: SP1CompressWitnessValues,
    pub merkle_val: SP1MerkleProofWitnessValues,
}

/// The tagged union of witnesses flowing through the reduction pipeline.
pub enum SP1CircuitWitness {
    /// Verify a batch of shard proofs.
    Core(SP1RecursionWitnessValues),
    /// Re-verify a batch of deferred proofs.
    Deferred(SP1DeferredWitnessValues),
    /// Merge a batch of already-reduced proofs.
    Compress(SP1CompressWitnessValues),
}

/// One batch of a sequence: the `k`-th run of (at most) `b` elements.
pub open spec fn chunk_of<T>(s: Seq<T>, b: nat, k: int) -> Seq<T> {
    s.subrange(
        k * b,
        if (k + 1) * b <= s.len() {
            (k + 1) * b
        } else {
            s.len() as int
        },
    )
}

} // verus!
