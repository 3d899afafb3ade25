use vstd::prelude::*;

verus! {

use crate::types::{elems_wf, proofs_wf, SP1ReduceProof};
use p3_field::AbstractField;
use p3_field::PrimeField32;

/// The digest produced by absorbing one deferred proof — the attested
/// verifying-key digest and committed-values digest read from its public
/// outputs — into a running hash-chain digest.
///
/// The underlying one-way hash takes pages to state, so only its name is given
/// here; it is a function of the three inputs alone.
pub uninterp spec fn deferred_hash_of(prev: Seq<u32>, vk_digest: Seq<u32>, pv_digest: Seq<u32>) -> Seq<u32>;

/// Relies on sp1_primitives::hash_deferred_proof: one Poseidon2 hash over the
/// previous digest, a verifying-key digest and a committed-values digest; the
/// result is canonical field elements and depends on the input elements alone.
#[verifier::external_body]
fn hash_deferred_proof_step(prev: &[u32; 8], vk_digest: &[u32; 8], pv_digest: &[u32; 32]) -> (r: [
    u32; 8])
    requires
        elems_wf(prev@),
        elems_wf(vk_digest@),
        elems_wf(pv_digest@),
    ensures
        r@ == deferred_hash_of(prev@, vk_digest@, pv_digest@),
        elems_wf(r@),
{
    let p = prev.map(p3_baby_bear::BabyBear::from_canonical_u32);
    let v = vk_digest.map(p3_baby_bear::BabyBear::from_canonical_u32);
    let c = pv_digest.map(p3_baby_bear::BabyBear::from_canonical_u32);
    let out = sp1_primitives::hash_deferred_proof(&p, &v, &c);
    out.map(|x: p3_baby_bear::BabyBear| x.as_canonical_u32())
}

/// The hash chain over an ordered list of deferred proofs: each proof's attested
/// verifying-key digest and committed-values digest — the values read from its
/// public outputs — are absorbed in turn, starting from `prev`. The order of the
/// list is significant.
pub open spec fn fold_deferred_digest(prev: Seq<u32>, proofs: Seq<SP1ReduceProof>) -> Seq<u32>
    decreases proofs.len(),
{
    if proofs.len() == 0 {
        prev
    } else {
        fold_deferred_digest(
            deferred_hash_of(prev, proofs[0].sp1_vk_digest@, proofs[0].committed_value_digest@),
            proofs.skip(1),
        )
    }
}

/// Absorbing one more proof at the end of the list extends the chain by one step.
pub proof fn lemma_fold_deferred_digest_snoc(
    prev: Seq<u32>,
    proofs: Seq<SP1ReduceProof>,
    p: SP1ReduceProof,
)
    ensures
        fold_deferred_digest(prev, proofs.push(p)) == deferred_hash_of(
            fold_deferred_digest(prev, proofs),
            p.sp1_vk_digest@,
            p.committed_value_digest@,
        ),
    decreases proofs.len(),
{
    if proofs.len() == 0 {
        assert(proofs.push(p).skip(1) =~= Seq::<SP1ReduceProof>::empty());
        assert(proofs.push(p)[0] == p);
        let h0 = deferred_hash_of(prev, p.sp1_vk_digest@, p.committed_value_digest@);
        assert(fold_deferred_digest(prev, proofs.push(p)) == fold_deferred_digest(
            h0,
            proofs.push(p).skip(1),
        ));
        assert(fold_deferred_digest(h0, Seq::<SP1ReduceProof>::empty()) == h0);
        assert(fold_deferred_digest(prev, proofs) == prev);
    } else {
        assert(proofs.push(p).skip(1) =~= proofs.skip(1).push(p));
        assert(proofs.push(p)[0] == proofs[0]);
        let h0 = deferred_hash_of(
            prev,
            proofs[0].sp1_vk_digest@,
            proofs[0].committed_value_digest@,
        );
        assert(fold_deferred_digest(prev, proofs.push(p)) == fold_deferred_digest(
            h0,
            proofs.skip(1).push(p),
        ));
        assert(fold_deferred_digest(prev, proofs) == fold_deferred_digest(h0, proofs.skip(1)));
        lemma_fold_deferred_digest_snoc(h0, proofs.skip(1), p);
    }
}

/// Chaining over a concatenation is chaining over the first part, then the second.
pub proof fn lemma_fold_deferred_digest_concat(
    prev: Seq<u32>,
    s1: Seq<SP1ReduceProof>,
    s2: Seq<SP1ReduceProof>,
)
    ensures
        fold_deferred_digest(prev, s1 + s2) == fold_deferred_digest(
            fold_deferred_digest(prev, s1),
            s2,
        ),
    decreases s2.len(),
{
    if s2.len() == 0 {
        assert(s1 + s2 =~= s1);
    } else {
        let s2h = s2.drop_last();
        let p = s2.last();
        assert(s2 =~= s2h.push(p));
        assert(s1 + s2 =~= (s1 + s2h).push(p));
        lemma_fold_deferred_digest_snoc(prev, s1 + s2h, p);
        lemma_fold_deferred_digest_concat(prev, s1, s2h);
        lemma_fold_deferred_digest_snoc(fold_deferred_digest(prev, s1), s2h, p);
    }
}

/// Accumulate an ordered list of deferred proofs into a single digest: the
/// sequential hash chain consumed by both the prover and the recursive verifier
/// circuit, which must derive the same value independently.
pub(crate) fn hash_deferred_proofs(prev_digest: &[u32; 8], deferred_proofs: &Vec<SP1ReduceProof>) -> (digest: [u32; 8])
    requires
        elems_wf(prev_digest@),
        proofs_wf(deferred_proofs@),
    ensures
        digest@ == fold_deferred_digest(prev_digest@, deferred_proofs@),
        elems_wf(digest@),
{
    let mut digest: [u32; 8] = *prev_digest;
    let mut i: usize = 0;
    while i < deferred_proofs.len()
        invariant
            0 <= i <= deferred_proofs.len(),
            proofs_wf(deferred_proofs@),
            digest@ == fold_deferred_digest(prev_digest@, deferred_proofs@.take(i as int)),
            elems_wf(digest@),
        decreases deferred_proofs.len() - i,
    {
        let p = &deferred_proofs[i];
        proof {
            assert(deferred_proofs@.take(i + 1) =~= deferred_proofs@.take(i as int).push(
                deferred_proofs@[i as int],
            ));
            lemma_fold_deferred_digest_snoc(
                prev_digest@,
                deferred_proofs@.take(i as int),
                deferred_proofs@[i as int],
            );
        }
        digest = hash_deferred_proof_step(&digest, &p.sp1_vk_digest, &p.committed_value_digest);
        i = i + 1;
    }
    proof {
        assert(deferred_proofs@.take(deferred_proofs@.len() as int) =~= deferred_proofs@);
    }
    digest
}

} // verus!
