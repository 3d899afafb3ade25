use vstd::prelude::*;

verus! {

/// One proved result arriving at the layer coordinator: the pipeline item's
/// sequence index and its height in the reduction tree. The (verifying key,
/// proof) pair it stands for is keyed by the index and stays with the caller.
#[derive(Clone, Copy, Debug, PartialEq, Eq, Structural)]
pub struct ProvedItem {
    /// The item's sequence index, assigned once at witness creation.
    pub index: usize,
    /// The item's height in the reduction tree.
    pub height: usize,
}

/// How a node of the reduction tree is produced.
#[derive(Clone, Copy, Debug, PartialEq, Eq, Structural)]
pub enum NodeKind {
    /// A leaf witness handed in by the caller.
    Leaf,
    /// A merge of the two children with the given sequence indices, in order.
    Merge(usize, usize),
    /// A promotion of the single odd leftover child with the given sequence
    /// index: its proof passes through to the next layer unchanged, pre-proved.
    Promote(usize),
}

/// One node of the reduction tree, as scheduled by the coordinator.
#[derive(Clone, Copy, Debug, PartialEq, Eq, Structural)]
pub struct Node {
    /// The node's sequence index; indices are assigned once, monotonically.
    pub index: usize,
    /// The node's height: 0 for leaves, one above its children otherwise.
    pub height: usize,
    /// How the node is produced.
    pub kind: NodeKind,
    /// Whether this node is the complete root of the reduction.
    pub is_complete: bool,
}

/// The single-threaded layer coordinator of the reduction pipeline: it consumes
/// proved items strictly in sequence-index order, pairs them two at a time, and
/// emits each pair as a merge witness one layer up — or, when a height change
/// shows the pending item to be the odd tail of its layer, promotes that item
/// alone. An emitted witness whose height reaches the expected root height is
/// flagged complete: it is the root, and the coordinator is done.
pub struct LayerCoordinator {
    /// The pending batch: the proved items received but not yet emitted upward.
    pub batch: Vec<ProvedItem>,
    /// The next sequence index to assign to an emitted witness.
    pub count: usize,
    /// The precomputed expected height of the root; fixed before the pipeline
    /// starts and never recalculated.
    pub expected_height: usize,
    /// Set once the complete root witness has been emitted.
    pub done: bool,
}

impl LayerCoordinator {
    /// A coordinator for a reduction over `num_leaves` leaf witnesses; emitted
    /// witnesses continue the leaves' index sequence.
    pub fn new(num_leaves: usize, expected_height: usize) -> (c: LayerCoordinator)
        ensures
            c.batch@ == Seq::<ProvedItem>::empty(),
            c.count == num_leaves,
            c.expected_height == expected_height,
            !c.done,
    {
        LayerCoordinator { batch: Vec::new(), count: num_leaves, expected_height, done: false }
    }

    /// Consumes the next proved item. With an empty batch the item is only
    /// buffered. Otherwise the pending item and the new one decide one witness:
    /// a merge of the two when their heights match, or — when the heights differ,
    /// so the pending item is the final odd tail of its layer — a promotion of
    /// the pending item alone, with the new item buffered for its own layer. The
    /// emitted witness sits one layer above the pending item and is complete
    /// exactly when it reaches the expected height.
    pub fn receive(&mut self, item: ProvedItem) -> (emitted: Option<Node>)
        requires
            !old(self).done,
            old(self).batch@.len() <= 1,
            old(self).count < usize::MAX,
            old(self).batch@.len() == 1 ==> old(self).batch@[0].height < usize::MAX,
        ensures
            final(self).expected_height == old(self).expected_height,
            old(self).batch@.len() == 0 ==> {
                &&& emitted is None
                &&& final(self).batch@ == seq![item]
                &&& final(self).count == old(self).count
                &&& !final(self).done
            },
            old(self).batch@.len() == 1 ==> {
                let prev = old(self).batch@[0];
                let node = Node {
                    index: old(self).count,
                    height: (prev.height + 1) as usize,
                    kind: if prev.height != item.height {
                        NodeKind::Promote(prev.index)
                    } else {
                        NodeKind::Merge(prev.index, item.index)
                    },
                    is_complete: prev.height + 1 == old(self).expected_height,
                };
                &&& emitted == Some(node)
                &&& final(self).count == old(self).count + 1
                &&& final(self).done == node.is_complete
                &&& final(self).batch@ == if prev.height != item.height {
                    seq![item]
                } else {
                    Seq::<ProvedItem>::empty()
                }
            },
    {
        self.batch.push(item);
        if self.batch.len() < crate::REDUCE_BATCH_SIZE {
            return None;
        }
        let prev = self.batch[0];
        let is_last = prev.height != item.height;
        let node = Node {
            index: self.count,
            height: prev.height + 1,
            kind: if is_last {
                NodeKind::Promote(prev.index)
            } else {
                NodeKind::Merge(prev.index, item.index)
            },
            is_complete: prev.height + 1 == self.expected_height,
        };
        self.count = self.count + 1;
        self.done = node.is_complete;
        if is_last {
            self.batch = vec![item];
        } else {
            self.batch = Vec::new();
        }
        proof {
            assert(old(self).batch@.push(item)[0] == old(self).batch@[0]);
        }
        Some(node)
    }
}

} // verus!
