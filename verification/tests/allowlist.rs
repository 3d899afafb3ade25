use sp1_prover::merkle::MerkleTree;
use sp1_prover::prover::SP1Prover;
use sp1_prover::types::{ComposeError, SP1ReduceProof};
use sp1_prover::witness::SP1CompressWitnessValues;

fn digest(seed: u32) -> [u32; 8] {
    let mut d = [0u32; 8];
    for (i, v) in d.iter_mut().enumerate() {
        *v = seed * 1000 + i as u32;
    }
    d
}

fn reduce_proof(seed: u32) -> SP1ReduceProof {
    // the producing key (checked against the allow-list) and the attested
    // program key (absorbed by the hash chain) are different digests
    SP1ReduceProof {
        vk_digest: digest(seed),
        sp1_vk_digest: digest(seed + 500),
        committed_value_digest: [seed % 256; 32],
        proof_id: seed as u64,
    }
}

#[test]
fn open_verifies_for_every_committed_index() {
    let leaves: Vec<[u32; 8]> = (0..5).map(digest).collect();
    let (root, tree) = MerkleTree::commit(&leaves);
    // the root is a real hash of the leaves, not any leaf passed through
    for leaf in &leaves {
        assert_ne!(&root, leaf);
    }
    for i in 0..5 {
        let (leaf, path) = MerkleTree::open(&tree, i);
        assert_eq!(leaf, leaves[i]);
        assert!(MerkleTree::verify_inclusion(&root, &leaf, i, &path));
    }
}

#[test]
fn verify_rejects_uncommitted_digest() {
    let leaves: Vec<[u32; 8]> = (0..5).map(digest).collect();
    let (root, tree) = MerkleTree::commit(&leaves);
    let outsider = digest(99);
    for i in 0..5 {
        let (_, path) = MerkleTree::open(&tree, i);
        assert!(!MerkleTree::verify_inclusion(&root, &outsider, i, &path));
    }
    // a committed digest under the wrong index fails too
    let (leaf, path) = MerkleTree::open(&tree, 2);
    assert!(!MerkleTree::verify_inclusion(&root, &leaf, 3, &path));
}

#[test]
fn single_leaf_tree() {
    let leaves = vec![digest(7)];
    let (root, tree) = MerkleTree::commit(&leaves);
    let (leaf, path) = MerkleTree::open(&tree, 0);
    assert_eq!(root, leaf);
    assert!(path.is_empty());
    assert!(MerkleTree::verify_inclusion(&root, &leaf, 0, &path));
}

fn test_prover(k: u32, vk_verification: bool) -> SP1Prover {
    let allowed: Vec<[u32; 8]> = (0..k).map(digest).collect();
    SP1Prover::new(allowed, vk_verification, 4)
}

#[test]
fn merkle_proofs_for_allowed_keys() {
    let prover = test_prover(6, true);
    let input = SP1CompressWitnessValues {
        vks_and_proofs: vec![reduce_proof(3), reduce_proof(0), reduce_proof(5)],
        is_complete: false,
    };
    let out = prover.make_merkle_proofs(input).unwrap();
    assert_eq!(out.merkle_val.root, prover.recursion_vk_root);
    assert_eq!(out.merkle_val.indices, vec![3, 0, 5]);
    assert_eq!(out.merkle_val.values[0], digest(3));
    for k in 0..3 {
        assert!(MerkleTree::verify_inclusion(
            &prover.recursion_vk_root,
            &out.merkle_val.values[k],
            out.merkle_val.indices[k],
            &out.merkle_val.vk_merkle_proofs[k],
        ));
    }
}

#[test]
fn unknown_key_is_rejected() {
    let prover = test_prover(6, true);
    let input = SP1CompressWitnessValues {
        vks_and_proofs: vec![reduce_proof(3), reduce_proof(42)],
        is_complete: false,
    };
    assert!(matches!(prover.make_merkle_proofs(input), Err(ComposeError::VkNotAllowed)));
}

#[test]
fn dummy_mode_derives_index_from_digest() {
    // with verification disabled the index is the digest's first element
    // reduced modulo the allow-list size, and the value repeats the index
    let prover = test_prover(6, false);
    let input = SP1CompressWitnessValues {
        vks_and_proofs: vec![reduce_proof(42)],
        is_complete: false,
    };
    let out = prover.make_merkle_proofs(input).unwrap();
    let expected = (42 * 1000) % 6;
    assert_eq!(out.merkle_val.indices, vec![expected]);
    assert_eq!(out.merkle_val.values[0], [expected as u32; 8]);
}
