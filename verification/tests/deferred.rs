use sp1_prover::coordinator::NodeKind;
use sp1_prover::prover::SP1Prover;
use sp1_prover::types::SP1ReduceProof;
use sp1_prover::witness::SP1CircuitWitness;

fn digest(seed: u32) -> [u32; 8] {
    let mut d = [0u32; 8];
    for (i, v) in d.iter_mut().enumerate() {
        *v = seed * 1000 + i as u32;
    }
    d
}

fn reduce_proof(seed: u32) -> SP1ReduceProof {
    // the producing key (checked against the allow-list) and the attested
    // program key (absorbed by the hash chain) are different digests
    SP1ReduceProof {
        vk_digest: digest(seed),
        sp1_vk_digest: digest(seed + 500),
        committed_value_digest: [seed % 256; 32],
        proof_id: seed as u64,
    }
}

fn test_prover() -> SP1Prover {
    let allowed: Vec<[u32; 8]> = (0..8).map(digest).collect();
    SP1Prover::new(allowed, true, 4)
}

#[test]
fn deferred_fold_is_order_sensitive() {
    let zero = [0u32; 8];
    let a = reduce_proof(1);
    let b = reduce_proof(2);
    let ab = SP1Prover::hash_deferred_proofs(&zero, &vec![a, b]);
    let ba = SP1Prover::hash_deferred_proofs(&zero, &vec![b, a]);
    assert_ne!(ab, ba);
    // and absorbing nothing changes nothing
    assert_eq!(SP1Prover::hash_deferred_proofs(&zero, &vec![]), zero);
}

#[test]
fn deferred_fold_chains_stepwise() {
    let zero = [0u32; 8];
    let a = reduce_proof(1);
    let b = reduce_proof(2);
    let c = reduce_proof(3);
    let step1 = SP1Prover::hash_deferred_proofs(&zero, &vec![a]);
    let step2 = SP1Prover::hash_deferred_proofs(&step1, &vec![b]);
    let step3 = SP1Prover::hash_deferred_proofs(&step2, &vec![c]);
    assert_eq!(step3, SP1Prover::hash_deferred_proofs(&zero, &vec![a, b, c]));
}

#[test]
fn first_layer_inputs_deferred_then_core() {
    let prover = test_prover();
    let vk = digest(0);
    let shards: Vec<u64> = vec![10, 11, 12];
    let deferred = vec![reduce_proof(1), reduce_proof(2)];
    let inputs = prover.get_first_layer_inputs(&vk, &shards, &deferred, 1).unwrap();
    assert_eq!(inputs.len(), 5);
    let zero = [0u32; 8];
    let after_first = SP1Prover::hash_deferred_proofs(&zero, &vec![reduce_proof(1)]);
    let full = SP1Prover::hash_deferred_proofs(&zero, &deferred);
    match &inputs[0] {
        SP1CircuitWitness::Deferred(w) => {
            assert_eq!(w.vks_and_proofs, vec![reduce_proof(1)]);
            assert_eq!(w.start_reconstruct_deferred_digest, zero);
            assert!(!w.is_complete);
            assert_eq!(w.sp1_vk_digest, vk);
            assert_eq!(w.vk_merkle_data.indices, vec![1]);
        },
        _ => panic!("first witness should be deferred"),
    }
    match &inputs[1] {
        SP1CircuitWitness::Deferred(w) => {
            assert_eq!(w.vks_and_proofs, vec![reduce_proof(2)]);
            assert_eq!(w.start_reconstruct_deferred_digest, after_first);
        },
        _ => panic!("second witness should be deferred"),
    }
    for (k, shard) in shards.iter().enumerate() {
        match &inputs[2 + k] {
            SP1CircuitWitness::Core(w) => {
                assert_eq!(w.shard_proofs, vec![*shard]);
                assert_eq!(w.is_first_shard, k == 0);
                assert!(!w.is_complete);
                assert_eq!(w.vk_root, prover.recursion_vk_root);
                assert_eq!(w.reconstruct_deferred_digest, full);
            },
            _ => panic!("witness should be core"),
        }
    }
}

#[test]
fn compress_plans_full_reduction() {
    let prover = test_prover();
    let vk = digest(0);
    let shards: Vec<u64> = vec![10, 11, 12];
    let deferred = vec![reduce_proof(1), reduce_proof(2)];
    let (inputs, schedule) = prover.compress(&vk, &shards, &deferred).unwrap();
    assert_eq!(inputs.len(), 5);
    assert_eq!(schedule.len(), 11);
    assert!(schedule.last().unwrap().is_complete);
    assert_eq!(schedule.last().unwrap().height, 3);
}

#[test]
fn compress_single_shard_is_complete_alone() {
    let prover = test_prover();
    let vk = digest(0);
    let shards: Vec<u64> = vec![10];
    let (inputs, schedule) = prover.compress(&vk, &shards, &vec![]).unwrap();
    assert_eq!(inputs.len(), 1);
    match &inputs[0] {
        SP1CircuitWitness::Core(w) => {
            assert!(w.is_complete);
            assert!(w.is_first_shard);
        },
        _ => panic!("the single witness should be core"),
    }
    assert_eq!(schedule.len(), 1);
    assert_eq!(schedule[0].kind, NodeKind::Leaf);
    assert!(schedule[0].is_complete);
}

#[test]
fn compress_rejects_unknown_deferred_key() {
    let prover = test_prover();
    let vk = digest(0);
    let shards: Vec<u64> = vec![10];
    let deferred = vec![reduce_proof(77)];
    assert!(prover.compress(&vk, &shards, &deferred).is_err());
}

#[test]
fn chain_absorbs_attested_digest_not_producing_key() {
    let zero = [0u32; 8];
    let base = reduce_proof(1);
    // a proof with the same attested outputs under a different producing key
    // folds to the same digest: the chain never reads the producing key
    let other_producer = SP1ReduceProof { vk_digest: digest(2), ..base };
    assert_eq!(
        SP1Prover::hash_deferred_proofs(&zero, &vec![base]),
        SP1Prover::hash_deferred_proofs(&zero, &vec![other_producer]),
    );
    // while a different attested digest under the same producing key does not
    let other_attested = SP1ReduceProof { sp1_vk_digest: digest(9), ..base };
    assert_ne!(
        SP1Prover::hash_deferred_proofs(&zero, &vec![base]),
        SP1Prover::hash_deferred_proofs(&zero, &vec![other_attested]),
    );
}

#[test]
fn allow_list_checks_producing_key_not_attested_digest() {
    // the attested program digests of reduce_proof are far outside the
    // allow-list, yet composition succeeds: only producing keys are looked up
    let prover = test_prover();
    let vk = digest(0);
    let shards: Vec<u64> = vec![10];
    let deferred = vec![reduce_proof(1), reduce_proof(2)];
    assert!(prover.compress(&vk, &shards, &deferred).is_ok());
    // and a proof produced by an uncommitted key is rejected even when its
    // attested digest happens to be committed
    let rogue = SP1ReduceProof { vk_digest: digest(77), sp1_vk_digest: digest(3), ..reduce_proof(77) };
    assert!(prover.compress(&vk, &shards, &vec![rogue]).is_err());
}
