use sp1_prover::coordinator::{LayerCoordinator, Node, NodeKind, ProvedItem};
use sp1_prover::height::{expected_height, simulate_layer_sizes};
use sp1_prover::pipeline::run_reduction;

#[test]
fn expected_height_small_counts() {
    assert_eq!(expected_height(1, 2), 0);
    assert_eq!(expected_height(2, 2), 1);
    assert_eq!(expected_height(3, 2), 2);
    assert_eq!(expected_height(4, 2), 2);
    assert_eq!(expected_height(5, 2), 3);
    assert_eq!(expected_height(8, 2), 3);
    assert_eq!(expected_height(9, 2), 4);
}

#[test]
fn expected_height_wider_batches() {
    assert_eq!(expected_height(1, 3), 0);
    assert_eq!(expected_height(3, 3), 1);
    assert_eq!(expected_height(4, 3), 2);
    assert_eq!(expected_height(9, 3), 2);
    assert_eq!(expected_height(10, 3), 3);
    assert_eq!(expected_height(100, 10), 2);
}

#[test]
fn simulation_matches_precomputed_height() {
    for n in 1..200usize {
        for b in 2..6usize {
            let sizes = simulate_layer_sizes(n, b);
            assert_eq!(sizes.len() - 1, expected_height(n, b));
            assert_eq!(*sizes.first().unwrap(), n);
            assert_eq!(*sizes.last().unwrap(), 1);
        }
    }
}

#[test]
fn five_leaves_layer_sizes() {
    let sizes = simulate_layer_sizes(5, 2);
    assert_eq!(sizes, vec![5, 3, 2, 1]);
}

fn merges(trace: &[Node]) -> Vec<&Node> {
    trace.iter().filter(|n| matches!(n.kind, NodeKind::Merge(_, _))).collect()
}

fn promotions(trace: &[Node]) -> Vec<&Node> {
    trace.iter().filter(|n| matches!(n.kind, NodeKind::Promote(_))).collect()
}

#[test]
fn five_leaves_schedule() {
    // five leaves reduce through layers 5 -> 3 -> 2 -> 1 at height 3
    let trace = run_reduction(5);
    assert_eq!(trace.len(), 11);
    for (i, node) in trace.iter().enumerate() {
        assert_eq!(node.index, i);
        assert_eq!(node.is_complete, i == 10);
    }
    for node in trace.iter().take(5) {
        assert_eq!(node.height, 0);
        assert_eq!(node.kind, NodeKind::Leaf);
    }
    // four merge nodes in all, the last of them the root, plus two promotions
    assert_eq!(merges(&trace).len(), 4);
    assert_eq!(promotions(&trace).len(), 2);
    assert_eq!(trace[5].kind, NodeKind::Merge(0, 1));
    assert_eq!(trace[5].height, 1);
    assert_eq!(trace[6].kind, NodeKind::Merge(2, 3));
    assert_eq!(trace[7].kind, NodeKind::Promote(4));
    assert_eq!(trace[7].height, 1);
    assert_eq!(trace[8].kind, NodeKind::Merge(5, 6));
    assert_eq!(trace[8].height, 2);
    assert_eq!(trace[9].kind, NodeKind::Promote(7));
    assert_eq!(trace[10].kind, NodeKind::Merge(8, 9));
    assert_eq!(trace[10].height, 3);
    assert!(trace[10].is_complete);
}

#[test]
fn single_leaf_runs_no_merge() {
    // one leaf: the pipeline degenerates to proving the leaf itself
    let trace = run_reduction(1);
    assert_eq!(trace.len(), 1);
    assert_eq!(trace[0].kind, NodeKind::Leaf);
    assert!(trace[0].is_complete);
    assert_eq!(trace[0].height, 0);
    assert!(merges(&trace).is_empty());
    assert!(promotions(&trace).is_empty());
}

#[test]
fn schedule_is_deterministic() {
    for n in [1usize, 2, 3, 4, 5, 7, 16, 33, 100] {
        let a = run_reduction(n);
        let b = run_reduction(n);
        assert_eq!(a, b);
        // exactly one complete node, the last one
        assert_eq!(a.iter().filter(|nd| nd.is_complete).count(), 1);
        assert!(a.last().unwrap().is_complete);
        assert_eq!(a.last().unwrap().height, expected_height(n, 2));
    }
}

#[test]
fn coordinator_merges_and_promotes() {
    let mut coord = LayerCoordinator::new(3, 2);
    assert_eq!(coord.receive(ProvedItem { index: 0, height: 0 }), None);
    let merged = coord.receive(ProvedItem { index: 1, height: 0 }).unwrap();
    assert_eq!(merged.kind, NodeKind::Merge(0, 1));
    assert_eq!(merged.index, 3);
    assert_eq!(merged.height, 1);
    assert!(!merged.is_complete);
    assert_eq!(coord.receive(ProvedItem { index: 2, height: 0 }), None);
    // the next item arrives one layer up: item 2 was the odd tail and is promoted
    let promoted = coord.receive(ProvedItem { index: 3, height: 1 }).unwrap();
    assert_eq!(promoted.kind, NodeKind::Promote(2));
    assert_eq!(promoted.index, 4);
    assert_eq!(promoted.height, 1);
    let root = coord.receive(ProvedItem { index: 4, height: 1 }).unwrap();
    assert_eq!(root.kind, NodeKind::Merge(3, 4));
    assert_eq!(root.height, 2);
    assert!(root.is_complete);
    assert!(coord.done);
}
