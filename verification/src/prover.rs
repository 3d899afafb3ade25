use vstd::prelude::*;

verus! {

use crate::cache::ShapeCache;
use crate::coordinator::Node;
use crate::digest::{fold_deferred_digest, hash_deferred_proofs, lemma_fold_deferred_digest_concat};
use crate::height::{ceil_div, lemma_ceil_div_exact};
use crate::merkle::{anc, recompute_root, sibling_of, MerkleTree};
use crate::pipeline::{run_reduction, valid_schedule};
use crate::shape::WitnessShape;
use crate::types::{elems_wf, proofs_wf, ComposeError, SP1ReduceProof};
use crate::witness::{
    chunk_of, SP1CircuitWitness, SP1CompressWitnessValues, SP1CompressWithVKeyWitnessValues,
    SP1DeferredWitnessValues, SP1MerkleProofWitnessValues, SP1RecursionWitnessValues,
};
use std::collections::BTreeMap;

broadcast use vstd::std_specs::btree::group_btree_axioms;

/// The digest `d` is one of the committed allow-list digests.
pub open spec fn vk_allowed(allowed: Seq<[u32; 8]>, d: [u32; 8]) -> bool {
    exists|i: int| 0 <= i < allowed.len() && (#[trigger] allowed[i])@ == d@
}

/// The sibling path `path` is exactly the tree's opening at leaf index `idx`:
/// one sibling digest per hashing level, from the leaves up.
pub open spec fn opening_at(tree: crate::merkle::MerkleTree, idx: nat, path: Seq<[u32; 8]>) -> bool {
    &&& path.len() == tree.height_spec()
    &&& forall|l: int|
        0 <= l < path.len() ==> #[trigger] path[l] == tree.layers@[l]@[
            sibling_of(anc(idx, l as nat)) as int
        ]
}

/// The allow-list openings are correctly formed for the given proofs. The root
/// is the committed one, and every entry carries the tree's opening at its
/// chosen index. With verification enabled, every value is the digest of the
/// proof's own producing key, placed at its committed index, with a sibling path
/// that recomputes exactly the committed root. With verification disabled — a
/// testing-only mode — the index is instead derived by reducing the digest's
/// first element modulo the allow-list size, and the value just repeats that
/// index.
pub open spec fn merkle_data_ok(
    prover: SP1Prover,
    proofs: Seq<SP1ReduceProof>,
    md: SP1MerkleProofWitnessValues,
) -> bool {
    &&& md.root@ == prover.recursion_vk_root@
    &&& md.values@.len() == proofs.len()
    &&& md.indices@.len() == proofs.len()
    &&& md.vk_merkle_proofs@.len() == proofs.len()
    &&& forall|k: int|
        0 <= k < proofs.len() ==> (#[trigger] md.indices@[k])
            < prover.recursion_vk_tree.leaf_count()
    &&& forall|k: int|
        0 <= k < proofs.len() ==> opening_at(
            prover.recursion_vk_tree,
            md.indices@[k] as nat,
            (#[trigger] md.vk_merkle_proofs@[k])@,
        )
    &&& prover.vk_verification ==> forall|k: int|
        0 <= k < proofs.len() ==> {
            &&& (#[trigger] md.values@[k])@ == proofs[k].vk_digest@
            &&& md.indices@[k] < prover.allowed_vks@.len()
            &&& prover.allowed_vks@[md.indices@[k] as int]@ == proofs[k].vk_digest@
            &&& recompute_root(md.values@[k]@, md.indices@[k] as nat, md.vk_merkle_proofs@[k]@)
                == prover.recursion_vk_tree.root_spec()@
        }
    &&& !prover.vk_verification ==> forall|k: int|
        0 <= k < proofs.len() ==> {
            &&& (#[trigger] md.indices@[k]) == proofs[k].vk_digest@[0] as int % (
            prover.allowed_vks@.len() as int)
            &&& md.values@[k]@ == Seq::new(8, |e: int| md.indices@[k] as u32)
        }
}

/// Witness `w` is the `k`-th shard-verification witness: it carries the `k`-th
/// batch of shard proofs, the program's verifying key, the flags of its place in
/// the run, the committed allow-list root and the deferred digest.
pub open spec fn core_witness_ok(
    vk_digest: [u32; 8],
    shards: Seq<u64>,
    b: nat,
    is_complete: bool,
    vk_root: [u32; 8],
    deferred_digest: Seq<u32>,
    k: int,
    w: SP1RecursionWitnessValues,
) -> bool {
    &&& w.shard_proofs@ == chunk_of(shards, b, k)
    &&& w.vk_digest@ == vk_digest@
    &&& w.is_complete == is_complete
    &&& w.is_first_shard == (k == 0)
    &&& w.vk_root@ == vk_root@
    &&& w.reconstruct_deferred_digest@ == deferred_digest
}

/// The shard-verification witnesses cover the shard proofs batch by batch.
pub open spec fn core_inputs_ok(
    vk_digest: [u32; 8],
    shards: Seq<u64>,
    b: nat,
    is_complete: bool,
    vk_root: [u32; 8],
    deferred_digest: Seq<u32>,
    r: Seq<SP1RecursionWitnessValues>,
) -> bool {
    &&& r.len() == ceil_div(shards.len(), b)
    &&& forall|k: int|
        0 <= k < r.len() ==> core_witness_ok(
            vk_digest,
            shards,
            b,
            is_complete,
            vk_root,
            deferred_digest,
            k,
            #[trigger] r[k],
        )
}

/// The all-zero digest at which a fresh deferred hash chain starts.
pub open spec fn zero_digest() -> Seq<u32> {
    Seq::new(8, |e: int| 0u32)
}

/// Witness `w` is the `k`-th deferred-verification witness: it re-verifies the
/// `k`-th batch of deferred proofs, starting from the hash-chain digest of all
/// earlier batches, with the allow-list openings for the batch's keys. A
/// deferred witness never completes the composition by itself.
pub open spec fn deferred_witness_ok(
    prover: SP1Prover,
    vk_digest: [u32; 8],
    proofs: Seq<SP1ReduceProof>,
    initial: Seq<u32>,
    b: nat,
    k: int,
    w: SP1DeferredWitnessValues,
) -> bool {
    &&& w.vks_and_proofs@ == chunk_of(proofs, b, k)
    &&& w.start_reconstruct_deferred_digest@ == fold_deferred_digest(
        initial,
        proofs.take(k * b),
    )
    &&& !w.is_complete
    &&& w.sp1_vk_digest@ == vk_digest@
    &&& merkle_data_ok(prover, chunk_of(proofs, b, k), w.vk_merkle_data)
}

/// The deferred-verification witnesses cover the deferred proofs batch by batch,
/// chaining the running digest through them in order.
pub open spec fn deferred_inputs_ok(
    prover: SP1Prover,
    vk_digest: [u32; 8],
    proofs: Seq<SP1ReduceProof>,
    initial: Seq<u32>,
    b: nat,
    r: Seq<SP1DeferredWitnessValues>,
) -> bool {
    &&& r.len() == ceil_div(proofs.len(), b)
    &&& forall|k: int|
        0 <= k < r.len() ==> deferred_witness_ok(
            prover,
            vk_digest,
            proofs,
            initial,
            b,
            k,
            #[trigger] r[k],
        )
}

/// The witnesses of the pipeline's first layer: every deferred-verification
/// witness first, then every shard-verification witness, in batch order — the
/// fixed relative order that the leaf index assignment reproduces. The core
/// witnesses carry the digest of the whole deferred hash chain, and the single
/// witness of a one-shard run with no deferred proofs is already complete.
pub open spec fn first_layer_inputs_ok(
    prover: SP1Prover,
    vk_digest: [u32; 8],
    shards: Seq<u64>,
    deferred: Seq<SP1ReduceProof>,
    b: nat,
    r: Seq<SP1CircuitWitness>,
) -> bool {
    let dn = ceil_div(deferred.len(), b);
    let cn = ceil_div(shards.len(), b);
    let complete = shards.len() == 1 && deferred.len() == 0;
    let final_dd = fold_deferred_digest(zero_digest(), deferred);
    &&& r.len() == dn + cn
    &&& forall|k: int|
        0 <= k < dn ==> match #[trigger] r[k] {
            SP1CircuitWitness::Deferred(w) => deferred_witness_ok(
                prover,
                vk_digest,
                deferred,
                zero_digest(),
                b,
                k,
                w,
            ),
            _ => false,
        }
    &&& forall|k: int|
        0 <= k < cn ==> match #[trigger] r[dn + k] {
            SP1CircuitWitness::Core(w) => core_witness_ok(
                vk_digest,
                shards,
                b,
                complete,
                prover.recursion_vk_root,
                final_dd,
                k,
                w,
            ),
            _ => false,
        }
}

/// The proof-composition engine: the allow-list commitment over the verifying
/// keys the recursive circuits accept, the caches of compiled verifier programs,
/// and the construction of every witness the reduction pipeline consumes.
pub struct SP1Prover {
    /// The bounded cache of compiled shard-verification ("lift") programs,
    /// keyed by witness shape, with its miss counter.
    pub lift_programs_lru: ShapeCache,
    /// The precomputed map of compiled merge ("join") programs by shape key,
    /// populated once at startup and read-only afterwards.
    pub join_programs_map: BTreeMap<u64, u64>,
    /// The number of merge-program requests that missed the precomputed map.
    pub join_cache_misses: u64,
    /// The committed root of the allowed recursion verifying keys.
    pub recursion_vk_root: [u32; 8],
    /// The Merkle tree committing the allowed verifying keys.
    pub recursion_vk_tree: MerkleTree,
    /// The allowed verifying-key digests, in committed order; a digest's
    /// position is its index in the tree.
    pub allowed_vks: Vec<[u32; 8]>,
    /// Whether verifying keys are checked against the allow-list. Disabling
    /// this is a testing-only mode and must not be used for keys whose
    /// soundness matters.
    pub vk_verification: bool,
}

impl SP1Prover {
    pub open spec fn wf(self) -> bool {
        &&& self.lift_programs_lru.wf()
        &&& self.recursion_vk_tree.wf()
        &&& self.recursion_vk_root@ == self.recursion_vk_tree.root_spec()@
        &&& 1 <= self.allowed_vks@.len() <= 0x2000_0000
        &&& forall|i: int|
            0 <= i < self.allowed_vks@.len() ==> elems_wf((#[trigger] self.allowed_vks@[i])@)
        &&& forall|i: int, j: int|
            0 <= i < j < self.allowed_vks@.len() ==> (#[trigger] self.allowed_vks@[i])@ != (
            #[trigger] self.allowed_vks@[j])@
        &&& self.allowed_vks@.len() <= self.recursion_vk_tree.leaf_count()
        &&& forall|i: int|
            0 <= i < self.allowed_vks@.len() ==> self.recursion_vk_tree.layers@[0]@[i] == (
            #[trigger] self.allowed_vks@[i])
    }

    /// Initializes the engine: commits the Merkle tree over the given allowed
    /// verifying-key digests, in their given order, and sets up empty program
    /// caches. The caller supplies the allow-list (loaded from its persisted
    /// artifact), the verification mode and the lift-cache capacity.
    pub fn new(allowed_vk_digests: Vec<[u32; 8]>, vk_verification: bool, core_cache_size: usize) -> (p:
        SP1Prover)
        requires
            1 <= allowed_vk_digests@.len() <= 0x2000_0000,
            1 <= core_cache_size,
            forall|i: int|
                0 <= i < allowed_vk_digests@.len() ==> elems_wf(
                    (#[trigger] allowed_vk_digests@[i])@,
                ),
            forall|i: int, j: int|
                0 <= i < j < allowed_vk_digests@.len() ==> (#[trigger] allowed_vk_digests@[i])@
                    != (#[trigger] allowed_vk_digests@[j])@,
        ensures
            p.wf(),
            p.allowed_vks@ == allowed_vk_digests@,
            p.vk_verification == vk_verification,
            p.lift_programs_lru.misses == 0,
            p.lift_programs_lru.entries() == Seq::<(u64, u64)>::empty(),
            p.lift_programs_lru.capacity() == core_cache_size,
            p.join_programs_map@ == Map::<u64, u64>::empty(),
            p.join_cache_misses == 0,
    {
        let (root, tree) = MerkleTree::commit(&allowed_vk_digests);
        SP1Prover {
            lift_programs_lru: ShapeCache::new(core_cache_size),
            join_programs_map: BTreeMap::new(),
            join_cache_misses: 0,
            recursion_vk_root: root,
            recursion_vk_tree: tree,
            allowed_vks: allowed_vk_digests,
            vk_verification,
        }
    }

    /// The committed index of a verifying-key digest in the allow-list, if any.
    pub fn vk_index(&self, d: &[u32; 8]) -> (r: Option<usize>)
        requires
            self.wf(),
        ensures
            match r {
                Some(i) => i < self.allowed_vks@.len() && self.allowed_vks@[i as int]@ == d@,
                None => !vk_allowed(self.allowed_vks@, *d),
            },
            (r is Some) == vk_allowed(self.allowed_vks@, *d),
    {
        let mut i: usize = 0;
        while i < self.allowed_vks.len()
            invariant
                self.wf(),
                0 <= i <= self.allowed_vks@.len(),
                forall|k: int| 0 <= k < i ==> (#[trigger] self.allowed_vks@[k])@ != d@,
            decreases self.allowed_vks@.len() - i,
        {
            if crate::merkle::digest_eq(&self.allowed_vks[i], d) {
                return Some(i);
            }
            i = i + 1;
        }
        None
    }

    /// Registers one precomputed merge program under its shape key.
    pub fn insert_join_program(&mut self, shape_key: u64, program: u64)
        ensures
            final(self).join_programs_map@ == old(self).join_programs_map@.insert(
                shape_key,
                program,
            ),
            final(self).lift_programs_lru == old(self).lift_programs_lru,
            final(self).join_cache_misses == old(self).join_cache_misses,
            final(self).recursion_vk_root == old(self).recursion_vk_root,
            final(self).recursion_vk_tree == old(self).recursion_vk_tree,
            final(self).allowed_vks == old(self).allowed_vks,
            final(self).vk_verification == old(self).vk_verification,
    {
        self.join_programs_map.insert(shape_key, program);
    }

    /// Resolves the compiled program for a lift-witness shape through the
    /// bounded cache: a hit returns the cached handle without counting a miss
    /// and only refreshes the entry's position; a miss counts once and caches
    /// the freshly compiled program the caller supplies in front, evicting the
    /// least-recently-used entry when the cache is at capacity. Either way the
    /// shape then maps to the returned program.
    pub fn recursion_program(&mut self, shape: &WitnessShape, built: u64) -> (program: u64)
        requires
            old(self).wf(),
            shape.wf(),
            old(self).lift_programs_lru.misses < u64::MAX,
        ensures
            final(self).wf(),
            crate::cache::has_key(old(self).lift_programs_lru.entries(), shape.encode_spec())
                ==> program == crate::cache::lookup(
                old(self).lift_programs_lru.entries(),
                shape.encode_spec(),
            ) && final(self).lift_programs_lru.misses == old(self).lift_programs_lru.misses
                && final(self).lift_programs_lru.entries() == seq![(shape.encode_spec(), program)]
                + old(self).lift_programs_lru.entries().remove(
                crate::cache::key_index(
                    old(self).lift_programs_lru.entries(),
                    shape.encode_spec(),
                ),
            ),
            !crate::cache::has_key(old(self).lift_programs_lru.entries(), shape.encode_spec())
                ==> program == built && final(self).lift_programs_lru.misses == old(
                self,
            ).lift_programs_lru.misses + 1 && final(self).lift_programs_lru.entries() == seq![
                (shape.encode_spec(), program),
            ] + (if old(self).lift_programs_lru.entries().len() == old(
                self,
            ).lift_programs_lru.capacity() {
                old(self).lift_programs_lru.entries().drop_last()
            } else {
                old(self).lift_programs_lru.entries()
            }),
            crate::cache::has_key(final(self).lift_programs_lru.entries(), shape.encode_spec()),
            crate::cache::lookup(final(self).lift_programs_lru.entries(), shape.encode_spec())
                == program,
            final(self).lift_programs_lru.capacity() == old(self).lift_programs_lru.capacity(),
            final(self).join_programs_map@ == old(self).join_programs_map@,
            final(self).join_cache_misses == old(self).join_cache_misses,
            final(self).recursion_vk_root == old(self).recursion_vk_root,
            final(self).recursion_vk_tree == old(self).recursion_vk_tree,
            final(self).allowed_vks == old(self).allowed_vks,
            final(self).vk_verification == old(self).vk_verification,
    {
        let key = shape.encode();
        self.lift_programs_lru.get_or_build(key, built)
    }

    /// Equips a merge witness with the allow-list openings the recursive circuit
    /// checks against the committed root. With allow-list verification enabled,
    /// every referenced verifying key must be in the committed set — a missing
    /// key aborts the composition — and the witness gets each key's committed
    /// index and inclusion proof. With verification disabled (testing only), a
    /// dummy index is derived from the digest itself.
    pub fn make_merkle_proofs(&self, input: SP1CompressWitnessValues) -> (r: Result<
        SP1CompressWithVKeyWitnessValues,
        ComposeError,
    >)
        requires
            self.wf(),
            proofs_wf(input.vks_and_proofs@),
        ensures
            match r {
                Ok(out) => {
                    &&& out.compress_val.vks_and_proofs@ == input.vks_and_proofs@
                    &&& out.compress_val.is_complete == input.is_complete
                    &&& merkle_data_ok(*self, input.vks_and_proofs@, out.merkle_val)
                },
                Err(e) => e == ComposeError::VkNotAllowed,
            },
            (r is Err) <==> (self.vk_verification && exists|k: int|
                0 <= k < input.vks_and_proofs@.len() && !vk_allowed(
                    self.allowed_vks@,
                    (#[trigger] input.vks_and_proofs@[k]).vk_digest,
                )),
    {
        let n = input.vks_and_proofs.len();
        let mut values: Vec<[u32; 8]> = Vec::new();
        let mut indices: Vec<usize> = Vec::new();
        let mut paths: Vec<Vec<[u32; 8]>> = Vec::new();
        let mut k: usize = 0;
        while k < n
            invariant
                self.wf(),
                proofs_wf(input.vks_and_proofs@),
                n == input.vks_and_proofs@.len(),
                0 <= k <= n,
                values@.len() == k,
                indices@.len() == k,
                paths@.len() == k,
                forall|x: int|
                    0 <= x < k ==> (#[trigger] indices@[x]) < self.recursion_vk_tree.leaf_count(),
                forall|x: int|
                    0 <= x < k ==> opening_at(
                        self.recursion_vk_tree,
                        indices@[x] as nat,
                        (#[trigger] paths@[x])@,
                    ),
                self.vk_verification ==> forall|x: int|
                    0 <= x < k ==> vk_allowed(
                        self.allowed_vks@,
                        (#[trigger] input.vks_and_proofs@[x]).vk_digest,
                    ),
                self.vk_verification ==> forall|x: int|
                    0 <= x < k ==> {
                        &&& (#[trigger] values@[x])@ == input.vks_and_proofs@[x].vk_digest@
                        &&& indices@[x] < self.allowed_vks@.len()
                        &&& self.allowed_vks@[indices@[x] as int]@
                            == input.vks_and_proofs@[x].vk_digest@
                        &&& recompute_root(values@[x]@, indices@[x] as nat, paths@[x]@)
                            == self.recursion_vk_tree.root_spec()@
                    },
                !self.vk_verification ==> forall|x: int|
                    0 <= x < k ==> {
                        &&& (#[trigger] indices@[x]) == input.vks_and_proofs@[x].vk_digest@[0]
                            as int % (self.allowed_vks@.len() as int)
                        &&& values@[x]@ == Seq::new(8, |e: int| indices@[x] as u32)
                    },
            decreases n - k,
        {
            let p = &input.vks_and_proofs[k];
            let idx: usize;
            let value: [u32; 8];
            if self.vk_verification {
                match self.vk_index(&p.vk_digest) {
                    Some(i) => {
                        idx = i;
                        value = p.vk_digest;
                    },
                    None => {
                        return Err(ComposeError::VkNotAllowed);
                    },
                }
            } else {
                idx = (p.vk_digest[0] as usize) % self.allowed_vks.len();
                value = vstd::array::array_fill_for_copy_types::<u32, 8>(idx as u32);
                proof {
                    assert(value@ =~= Seq::new(8, |e: int| idx as u32));
                }
            }
            let (leaf, path) = MerkleTree::open(&self.recursion_vk_tree, idx);
            proof {
                assert(opening_at(self.recursion_vk_tree, idx as nat, path@));
                if self.vk_verification {
                    crate::merkle::lemma_open_verifies(self.recursion_vk_tree, idx as nat, path@);
                    assert(self.recursion_vk_tree.layers@[0]@[idx as int]
                        == self.allowed_vks@[idx as int]);
                    assert(value@ == self.recursion_vk_tree.layers@[0]@[idx as int]@);
                }
            }
            values.push(value);
            indices.push(idx);
            paths.push(path);
            k = k + 1;
        }
        Ok(
            SP1CompressWithVKeyWitnessValues {
                compress_val: input,
                merkle_val: SP1MerkleProofWitnessValues {
                    root: self.recursion_vk_root,
                    values,
                    indices,
                    vk_merkle_proofs: paths,
                },
            },
        )
    }

    /// Builds the shard-verification witnesses of the first layer: the shard
    /// proofs chunked into batches in order, every batch under the program's
    /// verifying key, carrying the committed allow-list root and the deferred
    /// digest the core proofs reconstruct.
    pub fn get_recursion_core_inputs(
        &self,
        vk_digest: &[u32; 8],
        shard_proofs: &Vec<u64>,
        batch_size: usize,
        is_complete: bool,
        deferred_digest: &[u32; 8],
    ) -> (r: Vec<SP1RecursionWitnessValues>)
        requires
            self.wf(),
            1 <= batch_size,
            shard_proofs@.len() <= 0x1000_0000,
        ensures
            core_inputs_ok(
                *vk_digest,
                shard_proofs@,
                batch_size as nat,
                is_complete,
                self.recursion_vk_root,
                deferred_digest@,
                r@,
            ),
    {
        let len = shard_proofs.len();
        let b = batch_size;
        let mut r: Vec<SP1RecursionWitnessValues> = Vec::new();
        let mut i: usize = 0;
        while i < len
            invariant
                1 <= b,
                len == shard_proofs@.len() <= 0x1000_0000,
                0 <= i <= len,
                (i == r@.len() * b) || (i == len && r@.len() >= 1 && (r@.len() - 1) * b < len
                    < r@.len() * b),
                forall|k: int|
                    0 <= k < r@.len() ==> core_witness_ok(
                        *vk_digest,
                        shard_proofs@,
                        b as nat,
                        is_complete,
                        self.recursion_vk_root,
                        deferred_digest@,
                        k,
                        #[trigger] r@[k],
                    ),
            decreases len - i,
        {
            let end = if len - i < b {
                len
            } else {
                i + b
            };
            let mut chunk: Vec<u64> = Vec::new();
            let mut j: usize = i;
            while j < end
                invariant
                    i <= j <= end <= len,
                    len == shard_proofs@.len(),
                    chunk@ == shard_proofs@.subrange(i as int, j as int),
                decreases end - j,
            {
                proof {
                    assert(shard_proofs@.subrange(i as int, j + 1) =~= shard_proofs@.subrange(
                        i as int,
                        j as int,
                    ).push(shard_proofs@[j as int]));
                }
                chunk.push(shard_proofs[j]);
                j = j + 1;
            }
            let w = SP1RecursionWitnessValues {
                vk_digest: *vk_digest,
                shard_proofs: chunk,
                is_complete,
                is_first_shard: i == 0,
                vk_root: self.recursion_vk_root,
                reconstruct_deferred_digest: *deferred_digest,
            };
            proof {
                let k = r@.len() as int;
                assert(chunk_of(shard_proofs@, b as nat, k) =~= shard_proofs@.subrange(
                    i as int,
                    end as int,
                )) by {
                    assert((k + 1) * (b as int) == k * b + b) by (nonlinear_arith);
                }
            }
            r.push(w);
            proof {
                assert(r@.len() * (b as int) == (r@.len() - 1) * b + b) by (nonlinear_arith);
                let k = r@.len() - 1;
                assert(i == k * b && (k * b == 0 <==> k == 0)) by (nonlinear_arith)
                    requires
                        b >= 1,
                        i == k * b,
                        k >= 0,
                ;
                assert(core_witness_ok(
                    *vk_digest,
                    shard_proofs@,
                    b as nat,
                    is_complete,
                    self.recursion_vk_root,
                    deferred_digest@,
                    k,
                    r@[k],
                ));
            }
            i = end;
        }
        proof {
            if len == 0 {
                let k = r@.len() as int;
                assert(k == 0) by (nonlinear_arith)
                    requires
                        b >= 1,
                        k >= 0,
                        0 == k * b || (k >= 1 && (k - 1) * b < 0),
                ;
                assert(ceil_div(0, b as nat) == 0);
            } else {
                let k = (r@.len() - 1) as nat;
                if i == r@.len() * b {
                    assert((k + 1) * (b as int) == k * b + b) by (nonlinear_arith);
                    lemma_ceil_div_exact(len as nat, b as nat, k);
                } else {
                    assert((k + 1) * (b as int) == k * b + b) by (nonlinear_arith);
                    lemma_ceil_div_exact(len as nat, b as nat, k);
                }
            }
        }
        r
    }

    /// Builds the deferred-verification witnesses of the first layer: the
    /// deferred proofs chunked into batches in order, each batch carrying the
    /// hash-chain digest accumulated over all earlier batches and the allow-list
    /// openings for its keys. Returns the witnesses and the digest over the
    /// whole list, which the core witnesses must reconstruct. Fails with
    /// `VkNotAllowed` exactly when allow-list verification is enabled and some
    /// deferred proof's verifying key is not committed.
    pub fn get_recursion_deferred_inputs_with_initial_digest(
        &self,
        vk_digest: &[u32; 8],
        deferred_proofs: &Vec<SP1ReduceProof>,
        deferred_digest: &[u32; 8],
        batch_size: usize,
    ) -> (r: Result<(Vec<SP1DeferredWitnessValues>, [u32; 8]), ComposeError>)
        requires
            self.wf(),
            1 <= batch_size,
            deferred_proofs@.len() <= 0x1000_0000,
            proofs_wf(deferred_proofs@),
            elems_wf(deferred_digest@),
        ensures
            match r {
                Ok(out) => {
                    &&& deferred_inputs_ok(
                        *self,
                        *vk_digest,
                        deferred_proofs@,
                        deferred_digest@,
                        batch_size as nat,
                        out.0@,
                    )
                    &&& out.1@ == fold_deferred_digest(deferred_digest@, deferred_proofs@)
                    &&& elems_wf(out.1@)
                },
                Err(e) => e == ComposeError::VkNotAllowed,
            },
            (r is Err) <==> (self.vk_verification && exists|k: int|
                0 <= k < deferred_proofs@.len() && !vk_allowed(
                    self.allowed_vks@,
                    (#[trigger] deferred_proofs@[k]).vk_digest,
                )),
    {
        let len = deferred_proofs.len();
        let b = batch_size;
        let mut r: Vec<SP1DeferredWitnessValues> = Vec::new();
        let mut digest: [u32; 8] = *deferred_digest;
        let mut i: usize = 0;
        proof {
            assert(deferred_proofs@.take(0) =~= Seq::<SP1ReduceProof>::empty());
            assert(0 == r@.len() * (b as int)) by (nonlinear_arith)
                requires
                    r@.len() == 0,
            ;
        }
        while i < len
            invariant
                self.wf(),
                1 <= b,
                len == deferred_proofs@.len() <= 0x1000_0000,
                proofs_wf(deferred_proofs@),
                elems_wf(deferred_digest@),
                0 <= i <= len,
                (i == r@.len() * b) || (i == len && r@.len() >= 1 && (r@.len() - 1) * b < len
                    < r@.len() * b),
                elems_wf(digest@),
                digest@ == fold_deferred_digest(deferred_digest@, deferred_proofs@.take(i as int)),
                self.vk_verification ==> forall|x: int|
                    0 <= x < i ==> vk_allowed(
                        self.allowed_vks@,
                        (#[trigger] deferred_proofs@[x]).vk_digest,
                    ),
                forall|k: int|
                    0 <= k < r@.len() ==> deferred_witness_ok(
                        *self,
                        *vk_digest,
                        deferred_proofs@,
                        deferred_digest@,
                        b as nat,
                        k,
                        #[trigger] r@[k],
                    ),
            decreases len - i,
        {
            let end = if len - i < b {
                len
            } else {
                i + b
            };
            let mut chunk: Vec<SP1ReduceProof> = Vec::new();
            let mut j: usize = i;
            while j < end
                invariant
                    i <= j <= end <= len,
                    len == deferred_proofs@.len(),
                    chunk@ == deferred_proofs@.subrange(i as int, j as int),
                decreases end - j,
            {
                proof {
                    assert(deferred_proofs@.subrange(i as int, j + 1) =~= deferred_proofs@.subrange(
                        i as int,
                        j as int,
                    ).push(deferred_proofs@[j as int]));
                }
                chunk.push(deferred_proofs[j]);
                j = j + 1;
            }
            proof {
                let k = r@.len() as int;
                assert(chunk_of(deferred_proofs@, b as nat, k) =~= deferred_proofs@.subrange(
                    i as int,
                    end as int,
                )) by {
                    assert((k + 1) * (b as int) == k * b + b) by (nonlinear_arith);
                }
                assert(proofs_wf(chunk@)) by {
                    assert(forall|x: int|
                        0 <= x < chunk@.len() ==> #[trigger] chunk@[x] == deferred_proofs@[i + x]);
                }
            }
            let input = SP1CompressWitnessValues { vks_and_proofs: chunk, is_complete: true };
            let ghost chunk_view = input.vks_and_proofs@;
            let out = match self.make_merkle_proofs(input) {
                Ok(out) => out,
                Err(e) => {
                    proof {
                        let x = choose|x: int|
                            0 <= x < chunk_view.len() && !vk_allowed(
                                self.allowed_vks@,
                                (#[trigger] chunk_view[x]).vk_digest,
                            );
                        assert(chunk_view[x] == deferred_proofs@[i + x]);
                    }
                    return Err(e);
                },
            };
            proof {
                if self.vk_verification {
                    assert forall|x: int| i <= x < end implies vk_allowed(
                        self.allowed_vks@,
                        (#[trigger] deferred_proofs@[x]).vk_digest,
                    ) by {
                        let md = out.merkle_val;
                        let c = x - i;
                        assert(chunk_view[c] == deferred_proofs@[x]);
                        assert(md.values@[c]@ == chunk_view[c].vk_digest@);
                        assert(self.allowed_vks@[md.indices@[c] as int]@
                            == chunk_view[c].vk_digest@);
                    }
                }
            }
            let start_digest = digest;
            proof {
                assert(deferred_proofs@.take(end as int) =~= deferred_proofs@.take(i as int)
                    + deferred_proofs@.subrange(i as int, end as int));
                lemma_fold_deferred_digest_concat(
                    deferred_digest@,
                    deferred_proofs@.take(i as int),
                    deferred_proofs@.subrange(i as int, end as int),
                );
            }
            digest = hash_deferred_proofs(&digest, &out.compress_val.vks_and_proofs);
            let w = SP1DeferredWitnessValues {
                vks_and_proofs: out.compress_val.vks_and_proofs,
                vk_merkle_data: out.merkle_val,
                start_reconstruct_deferred_digest: start_digest,
                is_complete: false,
                sp1_vk_digest: *vk_digest,
            };
            r.push(w);
            proof {
                assert(r@.len() * (b as int) == (r@.len() - 1) * b + b) by (nonlinear_arith);
                let k = r@.len() - 1;
                assert(deferred_witness_ok(
                    *self,
                    *vk_digest,
                    deferred_proofs@,
                    deferred_digest@,
                    b as nat,
                    k,
                    r@[k],
                ));
            }
            i = end;
        }
        proof {
            assert(deferred_proofs@.take(len as int) =~= deferred_proofs@);
            if len == 0 {
                let k = r@.len() as int;
                assert(k == 0) by (nonlinear_arith)
                    requires
                        b >= 1,
                        k >= 0,
                        0 == k * b || (k >= 1 && (k - 1) * b < 0),
                ;
                assert(ceil_div(0, b as nat) == 0);
            } else {
                let k = (r@.len() - 1) as nat;
                assert((k + 1) * (b as int) == k * b + b) by (nonlinear_arith);
                lemma_ceil_div_exact(len as nat, b as nat, k);
            }
        }
        Ok((r, digest))
    }

    /// Builds the deferred-verification witnesses starting the hash chain from
    /// the zero digest, as a fresh composition does.
    pub fn get_recursion_deferred_inputs(
        &self,
        vk_digest: &[u32; 8],
        deferred_proofs: &Vec<SP1ReduceProof>,
        batch_size: usize,
    ) -> (r: Result<(Vec<SP1DeferredWitnessValues>, [u32; 8]), ComposeError>)
        requires
            self.wf(),
            1 <= batch_size,
            deferred_proofs@.len() <= 0x1000_0000,
            proofs_wf(deferred_proofs@),
        ensures
            match r {
                Ok(out) => {
                    &&& deferred_inputs_ok(
                        *self,
                        *vk_digest,
                        deferred_proofs@,
                        zero_digest(),
                        batch_size as nat,
                        out.0@,
                    )
                    &&& out.1@ == fold_deferred_digest(zero_digest(), deferred_proofs@)
                    &&& elems_wf(out.1@)
                },
                Err(e) => e == ComposeError::VkNotAllowed,
            },
            (r is Err) <==> (self.vk_verification && exists|k: int|
                0 <= k < deferred_proofs@.len() && !vk_allowed(
                    self.allowed_vks@,
                    (#[trigger] deferred_proofs@[k]).vk_digest,
                )),
    {
        let zero = vstd::array::array_fill_for_copy_types::<u32, 8>(0u32);
        proof {
            assert(zero@ =~= zero_digest());
        }
        self.get_recursion_deferred_inputs_with_initial_digest(
            vk_digest,
            deferred_proofs,
            &zero,
            batch_size,
        )
    }

    /// Accumulates an ordered list of deferred proofs into a single digest: the
    /// sequential hash chain both the prover and the recursive verifier circuit
    /// derive independently and must agree on bit for bit.
    pub fn hash_deferred_proofs(
        prev_digest: &[u32; 8],
        deferred_proofs: &Vec<SP1ReduceProof>,
    ) -> (digest: [u32; 8])
        requires
            elems_wf(prev_digest@),
            proofs_wf(deferred_proofs@),
        ensures
            digest@ == fold_deferred_digest(prev_digest@, deferred_proofs@),
            elems_wf(digest@),
    {
        hash_deferred_proofs(prev_digest, deferred_proofs)
    }

    /// Generates the inputs for the first layer of recursive proofs: the
    /// deferred-verification witnesses first, then the shard-verification
    /// witnesses, exactly in the order the pipeline assigns their leaf indices.
    /// Fails with `VkNotAllowed` exactly when allow-list verification is enabled
    /// and a deferred proof's verifying key is not committed.
    pub fn get_first_layer_inputs(
        &self,
        vk_digest: &[u32; 8],
        shard_proofs: &Vec<u64>,
        deferred_proofs: &Vec<SP1ReduceProof>,
        batch_size: usize,
    ) -> (r: Result<Vec<SP1CircuitWitness>, ComposeError>)
        requires
            self.wf(),
            1 <= batch_size,
            shard_proofs@.len() <= 0x1000_0000,
            deferred_proofs@.len() <= 0x1000_0000,
            proofs_wf(deferred_proofs@),
        ensures
            match r {
                Ok(inputs) => first_layer_inputs_ok(
                    *self,
                    *vk_digest,
                    shard_proofs@,
                    deferred_proofs@,
                    batch_size as nat,
                    inputs@,
                ),
                Err(e) => e == ComposeError::VkNotAllowed,
            },
            (r is Err) <==> (self.vk_verification && exists|k: int|
                0 <= k < deferred_proofs@.len() && !vk_allowed(
                    self.allowed_vks@,
                    (#[trigger] deferred_proofs@[k]).vk_digest,
                )),
    {
        let (mut deferred_inputs, deferred_digest) = match self.get_recursion_deferred_inputs(
            vk_digest,
            deferred_proofs,
            batch_size,
        ) {
            Ok(out) => out,
            Err(e) => {
                return Err(e);
            },
        };
        let is_complete = shard_proofs.len() == 1 && deferred_proofs.len() == 0;
        let mut core_inputs = self.get_recursion_core_inputs(
            vk_digest,
            shard_proofs,
            batch_size,
            is_complete,
            &deferred_digest,
        );
        let ghost dws = deferred_inputs@;
        let ghost cws = core_inputs@;
        let ghost dn = dws.len();
        let ghost cn = cws.len();
        let mut inputs: Vec<SP1CircuitWitness> = Vec::new();
        while deferred_inputs.len() > 0
            invariant
                dn == dws.len(),
                inputs@.len() <= dn,
                inputs@.len() + deferred_inputs@.len() == dn,
                deferred_inputs@ == dws.skip(inputs@.len() as int),
                forall|k: int|
                    0 <= k < inputs@.len() ==> (#[trigger] inputs@[k] matches
                        SP1CircuitWitness::Deferred(w) && w == dws[k]),
            decreases deferred_inputs@.len(),
        {
            let ghost pre = deferred_inputs@;
            let w = deferred_inputs.remove(0);
            proof {
                let m = inputs@.len() as int;
                assert(pre == dws.skip(m));
                assert(pre[0] == dws.skip(m)[0]);
                assert(dws.skip(m)[0] == dws[m]);
                assert(w == pre[0]);
                assert(pre.remove(0) =~= dws.skip(m + 1));
            }
            inputs.push(SP1CircuitWitness::Deferred(w));
        }
        while core_inputs.len() > 0
            invariant
                dn == dws.len(),
                cn == cws.len(),
                dn <= inputs@.len() <= dn + cn,
                core_inputs@.len() <= cn,
                inputs@.len() == dn + (cn - core_inputs@.len()),
                core_inputs@ == cws.skip(inputs@.len() - dn),
                forall|k: int|
                    0 <= k < dn ==> (#[trigger] inputs@[k] matches SP1CircuitWitness::Deferred(w)
                        && w == dws[k]),
                forall|k: int|
                    dn <= k < inputs@.len() ==> (#[trigger] inputs@[k] matches
                        SP1CircuitWitness::Core(w) && w == cws[k - dn]),
            decreases core_inputs@.len(),
        {
            let ghost pre = core_inputs@;
            let w = core_inputs.remove(0);
            proof {
                let m = inputs@.len() as int - dn as int;
                assert(pre == cws.skip(m));
                assert(pre[0] == cws.skip(m)[0]);
                assert(cws.skip(m)[0] == cws[m]);
                assert(w == pre[0]);
                assert(pre.remove(0) =~= cws.skip(m + 1));
            }
            inputs.push(SP1CircuitWitness::Core(w));
        }
        proof {
            assert(inputs@.len() == dn + cn);
            assert forall|k: int| 0 <= k < cn implies match #[trigger] inputs@[dn as int + k] {
                SP1CircuitWitness::Core(w) => core_witness_ok(
                    *vk_digest,
                    shard_proofs@,
                    batch_size as nat,
                    shard_proofs@.len() == 1 && deferred_proofs@.len() == 0,
                    self.recursion_vk_root,
                    fold_deferred_digest(zero_digest(), deferred_proofs@),
                    k,
                    w,
                ),
                _ => false,
            } by {
                assert(inputs@[dn as int + k] matches SP1CircuitWitness::Core(w) && w == cws[k]);
            }
        }
        Ok(inputs)
    }

    /// Reduces a proven set of shard proofs plus a list of already-compressed
    /// deferred proofs to the verified plan of the reduction pipeline: the
    /// ordered first-layer witnesses (one leaf each, deferred first, then core,
    /// batches of one) and the exact schedule of merges and promotions over
    /// them, ending at the single complete root node, whose (verifying key,
    /// proof) pair is the composition's result. The caller drives the schedule
    /// through its trace-generation and proving worker pools, ordered by the
    /// turn-based primitive; the schedule itself is deterministic, so the root
    /// does not depend on pool sizes. Fails with `VkNotAllowed` exactly when
    /// allow-list verification is enabled and a deferred proof's verifying key
    /// is not committed; any worker failure is fatal to the whole composition
    /// and surfaced by the caller running the stages.
    pub fn compress(
        &self,
        vk_digest: &[u32; 8],
        shard_proofs: &Vec<u64>,
        deferred_proofs: &Vec<SP1ReduceProof>,
    ) -> (r: Result<(Vec<SP1CircuitWitness>, Vec<Node>), ComposeError>)
        requires
            self.wf(),
            1 <= shard_proofs@.len() <= 0x10_0000,
            deferred_proofs@.len() <= 0x10_0000,
            proofs_wf(deferred_proofs@),
        ensures
            match r {
                Ok(out) => {
                    &&& first_layer_inputs_ok(
                        *self,
                        *vk_digest,
                        shard_proofs@,
                        deferred_proofs@,
                        1,
                        out.0@,
                    )
                    &&& out.0@.len() == deferred_proofs@.len() + shard_proofs@.len()
                    &&& valid_schedule(out.0@.len() as nat, out.1@)
                    &&& forall|i: int|
                        0 <= i < out.0@.len() ==> (#[trigger] out.1@[i]).height == 0
                            && out.1@[i].kind == crate::coordinator::NodeKind::Leaf
                },
                Err(e) => e == ComposeError::VkNotAllowed,
            },
            (r is Err) <==> (self.vk_verification && exists|k: int|
                0 <= k < deferred_proofs@.len() && !vk_allowed(
                    self.allowed_vks@,
                    (#[trigger] deferred_proofs@[k]).vk_digest,
                )),
    {
        let first_layer_batch_size: usize = 1;
        let inputs = match self.get_first_layer_inputs(
            vk_digest,
            shard_proofs,
            deferred_proofs,
            first_layer_batch_size,
        ) {
            Ok(x) => x,
            Err(e) => {
                return Err(e);
            },
        };
        proof {
            crate::height::lemma_ceil_div_by_one(deferred_proofs@.len());
            crate::height::lemma_ceil_div_by_one(shard_proofs@.len());
        }
        let schedule = run_reduction(inputs.len());
        Ok((inputs, schedule))
    }

    /// Resolves the compiled program for a merge-witness shape: the precomputed
    /// map answers a known shape; an unexpected shape falls back to the freshly
    /// compiled program the caller supplies.
    pub fn compress_program(&self, shape: &WitnessShape, built: u64) -> (program: u64)
        requires
            self.wf(),
            shape.wf(),
        ensures
            self.join_programs_map@.contains_key(shape.encode_spec()) ==> program
                == self.join_programs_map@[shape.encode_spec()],
            !self.join_programs_map@.contains_key(shape.encode_spec()) ==> program == built,
    {
        let key = shape.encode();
        match self.join_programs_map.get(&key) {
            Some(p) => *p,
            None => built,
        }
    }
}

} // verus!
