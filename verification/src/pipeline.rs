use vstd::prelude::*;

verus! {

use crate::coordinator::{LayerCoordinator, Node, NodeKind, ProvedItem};
use crate::height::{ceil_div, expected_height, layer_size, lemma_layer_size_pos};
use vstd::arithmetic::div_mod::lemma_fundamental_div_mod;

/// The sequence index at which layer `h` of the reduction tree starts: the sum
/// of the sizes of all layers below it.
pub open spec fn layer_off(n: nat, h: nat) -> nat
    decreases h,
{
    if h == 0 {
        0
    } else {
        layer_off(n, (h - 1) as nat) + layer_size(n, 2, (h - 1) as nat)
    }
}

/// Sequence index `i` belongs to layer `h` of the reduction tree over `n` leaves.
pub open spec fn in_layer(n: nat, i: int, h: nat) -> bool {
    layer_off(n, h) <= i < layer_off(n, h) + layer_size(n, 2, h)
}

/// Node `i` of a schedule is structurally correct: it carries its own index,
/// sits inside the layer its height names, and — above the leaf layer — is the
/// merge of the two nodes of the layer below at twice its position, or the
/// promotion of the single odd leftover when only one such node exists.
pub open spec fn node_ok(n: nat, t: Seq<Node>, i: int) -> bool
    recommends
        0 <= i < t.len(),
{
    let nd = t[i];
    let h = nd.height as nat;
    &&& nd.index == i
    &&& in_layer(n, i, h)
    &&& if h == 0 {
        nd.kind == NodeKind::Leaf
    } else {
        let j = i - layer_off(n, h);
        let base = layer_off(n, (h - 1) as nat);
        let prev_sz = layer_size(n, 2, (h - 1) as nat);
        match nd.kind {
            NodeKind::Leaf => false,
            NodeKind::Merge(a, b) => 2 * j + 1 < prev_sz && a == base + 2 * j && b == base + 2 * j
                + 1,
            NodeKind::Promote(a) => 2 * j + 1 == prev_sz && a == base + 2 * j,
        }
    }
}

/// A valid schedule of the reduction over `n` leaves: nodes indexed 0, 1, 2, ...
/// in creation order, every node structurally correct, the layer-size chain
/// ending at a single node at the root height, the schedule holding exactly the
/// nodes of all layers — and exactly one complete node, the root, at the end.
pub open spec fn valid_schedule(n: nat, t: Seq<Node>) -> bool {
    let rh = t.last().height as nat;
    &&& t.len() >= 1
    &&& forall|i: int| 0 <= i < t.len() ==> node_ok(n, t, i)
    &&& layer_size(n, 2, rh) == 1
    &&& forall|g: nat| g < rh ==> layer_size(n, 2, g) >= 2
    &&& t.len() == layer_off(n, rh) + 1
    &&& forall|i: int| 0 <= i < t.len() ==> ((#[trigger] t[i]).is_complete <==> i == t.len() - 1)
}

/// Layer sizes never grow as the tree is climbed, and the exact halving step.
proof fn lemma_sz_step(n: nat, h: nat)
    requires
        n >= 1,
    ensures
        layer_size(n, 2, (h + 1) as nat) == (layer_size(n, 2, h) - 1) / 2 + 1,
        layer_size(n, 2, h) % 2 == 0 ==> 2 * layer_size(n, 2, (h + 1) as nat) == layer_size(
            n,
            2,
            h,
        ),
        layer_size(n, 2, h) % 2 == 1 ==> 2 * layer_size(n, 2, (h + 1) as nat) == layer_size(
            n,
            2,
            h,
        ) + 1,
{
    lemma_layer_size_pos(n, 2, h);
    let k = layer_size(n, 2, h) as int;
    assert(layer_size(n, 2, (h + 1) as nat) == ceil_div(layer_size(n, 2, h), 2));
    lemma_fundamental_div_mod(k - 1, 2);
    lemma_fundamental_div_mod(k, 2);
}

/// Layer offsets never decrease.
proof fn lemma_off_mono(n: nat, g1: nat, g2: nat)
    requires
        g1 <= g2,
    ensures
        layer_off(n, g1) <= layer_off(n, g2),
    decreases g2 - g1,
{
    if g2 > g1 {
        lemma_off_mono(n, g1, (g2 - 1) as nat);
    }
}

/// The end of each layer never decreases as the tree is climbed.
proof fn lemma_end_mono(n: nat, g1: nat, g2: nat)
    requires
        n >= 1,
        g1 <= g2,
    ensures
        layer_off(n, g1) + layer_size(n, 2, g1) <= layer_off(n, g2) + layer_size(n, 2, g2),
    decreases g2 - g1,
{
    if g2 > g1 {
        lemma_end_mono(n, g1, (g2 - 1) as nat);
        lemma_layer_size_pos(n, 2, g2);
    }
}

/// Layers occupy disjoint index ranges: an index belongs to one layer only.
pub proof fn lemma_layer_disjoint(n: nat, i: int, h1: nat, h2: nat)
    requires
        n >= 1,
        in_layer(n, i, h1),
        in_layer(n, i, h2),
    ensures
        h1 == h2,
{
    if h1 < h2 {
        assert(layer_off(n, (h1 + 1) as nat) == layer_off(n, h1) + layer_size(n, 2, h1));
        lemma_off_mono(n, (h1 + 1) as nat, h2);
    } else if h2 < h1 {
        assert(layer_off(n, (h2 + 1) as nat) == layer_off(n, h2) + layer_size(n, 2, h2));
        lemma_off_mono(n, (h2 + 1) as nat, h1);
    }
}

/// The whole tree stays small: every layer ends below `2n + h`.
proof fn lemma_off_bound(n: nat, h: nat)
    requires
        n >= 1,
    ensures
        layer_off(n, h) + 2 * layer_size(n, 2, h) <= 2 * n + h,
    decreases h,
{
    if h == 0 {
    } else {
        lemma_off_bound(n, (h - 1) as nat);
        lemma_sz_step(n, (h - 1) as nat);
        lemma_layer_size_pos(n, 2, (h - 1) as nat);
        let k = layer_size(n, 2, (h - 1) as nat) as int;
        lemma_fundamental_div_mod(k - 1, 2);
    }
}

/// How many schedule nodes exist once the coordinator has consumed the first
/// `j` items of layer `h`.
spec fn len_at(n: nat, h: nat, j: nat) -> int {
    if h == 0 {
        n as int + (j as int) / 2
    } else {
        layer_off(n, h) + layer_size(n, 2, h) - layer_size(n, 2, (h - 1) as nat) % 2 + (if j >= 1 {
            layer_size(n, 2, (h - 1) as nat) % 2
        } else {
            0
        }) + j / 2
    }
}

/// The coordinator's pending batch once it has consumed the first `j` items of
/// layer `h`: the odd tail of the layer below while `j == 0`, the last consumed
/// item after an odd number of consumed items, nothing otherwise.
spec fn batch_at(n: nat, h: nat, j: nat) -> Seq<ProvedItem> {
    if j == 0 {
        if h >= 1 && layer_size(n, 2, (h - 1) as nat) % 2 == 1 {
            seq![ProvedItem { index: (layer_off(n, h) - 1) as usize, height: (h - 1) as usize }]
        } else {
            Seq::empty()
        }
    } else if j % 2 == 1 {
        seq![ProvedItem { index: (layer_off(n, h) + j - 1) as usize, height: h as usize }]
    } else {
        Seq::empty()
    }
}

/// While a layer is being consumed, the schedule already extends past the item
/// being consumed, and never past the whole tree.
proof fn lemma_len_at_bounds(n: nat, h_exp: nat, h: nat, j: nat)
    requires
        n >= 2,
        h < h_exp,
        forall|g: nat| g < h_exp ==> #[trigger] layer_size(n, 2, g) >= 2,
        layer_size(n, 2, h_exp) == 1,
        j < layer_size(n, 2, h),
    ensures
        layer_off(n, h) + j < len_at(n, h, j),
        len_at(n, h, j) <= layer_off(n, h_exp),
{
    lemma_layer_size_pos(n, 2, h);
    let sz = layer_size(n, 2, h) as int;
    let szn = layer_size(n, 2, (h + 1) as nat) as int;
    lemma_sz_step(n, h);
    lemma_fundamental_div_mod(j as int, 2);
    if h >= 1 {
        lemma_sz_step(n, (h - 1) as nat);
        lemma_layer_size_pos(n, 2, (h - 1) as nat);
        assert(layer_size(n, 2, (h - 1) as nat) >= 2);
        lemma_fundamental_div_mod(layer_size(n, 2, (h - 1) as nat) as int, 2);
    }
    // the schedule extends past the item being consumed
    assert(layer_off(n, h) + j < len_at(n, h, j)) by {
        lemma_fundamental_div_mod(j as int, 2);
    }
    // and never past the whole tree: everything fits below the next layer's end
    assert(len_at(n, h, j) <= layer_off(n, (h + 1) as nat) + szn) by {
        lemma_fundamental_div_mod(j as int, 2);
    }
    lemma_end_mono(n, (h + 1) as nat, h_exp);
}

/// The exact schedule of the self-feeding binary reduction over `n` leaf
/// witnesses, produced by driving the layer coordinator over every pipeline item
/// strictly in sequence-index order, exactly as the turn-based ordering
/// primitive delivers them. The result lists every node of the reduction tree:
/// the `n` leaves first, then each merge or promotion in creation order, ending
/// with the single complete root, whose height equals the precomputed expected
/// height.
#[verifier::rlimit(100)]
pub fn run_reduction(n: usize) -> (trace: Vec<Node>)
    requires
        1 <= n <= 0x100_0000,
    ensures
        valid_schedule(n as nat, trace@),
        trace@.len() >= n,
        forall|i: int|
            0 <= i < n ==> (#[trigger] trace@[i]).height == 0 && trace@[i].kind == NodeKind::Leaf,
{
    let h_exp = expected_height(n, crate::REDUCE_BATCH_SIZE);
    let mut trace: Vec<Node> = Vec::new();
    let mut i: usize = 0;
    while i < n
        invariant
            0 <= i <= n,
            1 <= n,
            trace@.len() == i,
            forall|k: int|
                0 <= k < i ==> #[trigger] trace@[k] == (Node {
                    index: k as usize,
                    height: 0usize,
                    kind: NodeKind::Leaf,
                    is_complete: n == 1,
                }),
        decreases n - i,
    {
        trace.push(Node { index: i, height: 0, kind: NodeKind::Leaf, is_complete: n == 1 });
        i = i + 1;
    }
    if n == 1 {
        proof {
            assert(layer_size(1nat, 2, 0) == 1);
            assert(trace@.last() == trace@[0]);
            assert(node_ok(n as nat, trace@, 0));
        }
        return trace;
    }
    assert(h_exp >= 1) by {
        assert(layer_size(n as nat, 2, 0) == n >= 2);
    }
    let mut coord = LayerCoordinator::new(n, h_exp);
    let mut p: usize = 0;
    let ghost mut gh: nat = 0;
    let ghost mut gj: nat = 0;
    proof {
        lemma_off_bound(n as nat, h_exp as nat);
        lemma_off_mono(n as nat, 1, h_exp as nat);
        assert(layer_off(n as nat, 0) == 0);
        assert(layer_size(n as nat, 2, 0) == n);
        assert(layer_off(n as nat, 1) == n);
    }
    while !coord.done
        invariant
            2 <= n <= 0x100_0000,
            h_exp <= n,
            layer_size(n as nat, 2, h_exp as nat) == 1,
            forall|g: nat| g < h_exp ==> #[trigger] layer_size(n as nat, 2, g) >= 2,
            coord.expected_height == h_exp,
            coord.count == trace@.len(),
            trace@.len() >= n,
            layer_off(n as nat, h_exp as nat) + 2 <= 2 * n + h_exp,
            forall|i: int| 0 <= i < trace@.len() ==> node_ok(n as nat, trace@, i),
            forall|i: int|
                0 <= i < trace@.len() ==> ((#[trigger] trace@[i]).is_complete <==> trace@[i].height
                    == h_exp),
            forall|i: int|
                0 <= i < n ==> (#[trigger] trace@[i]).height == 0 && trace@[i].kind
                    == NodeKind::Leaf,
            !coord.done ==> {
                &&& gh < h_exp
                &&& gj < layer_size(n as nat, 2, gh)
                &&& p == layer_off(n as nat, gh) + gj
                &&& trace@.len() == len_at(n as nat, gh, gj)
                &&& coord.batch@ == batch_at(n as nat, gh, gj)
                &&& p < trace@.len()
            },
            coord.done ==> trace@.len() == layer_off(n as nat, h_exp as nat) + 1,
            trace@.len() <= layer_off(n as nat, h_exp as nat) + 1,
        decreases layer_off(n as nat, h_exp as nat) + 1 - p,
    {
        let ghost t_old = trace@;
        let ghost h0 = gh;
        let ghost j0 = gj;
        proof {
            lemma_len_at_bounds(n as nat, h_exp as nat, h0, j0);
        }
        let node_p = trace[p];
        proof {
            assert(node_ok(n as nat, t_old, p as int));
            assert(in_layer(n as nat, p as int, h0));
            lemma_layer_disjoint(n as nat, p as int, node_p.height as nat, h0);
            assert(node_p.height == h0);
        }
        let item = ProvedItem { index: p, height: node_p.height };
        let emitted = coord.receive(item);
        match emitted {
            Some(node) => {
                trace.push(node);
            },
            None => {},
        }
        p = p + 1;
        proof {
            let nn = n as nat;
            let sz0 = layer_size(nn, 2, h0);
            let szp = if h0 >= 1 {
                layer_size(nn, 2, (h0 - 1) as nat)
            } else {
                0nat
            };
            lemma_step_arith(nn, h_exp as nat, h0, j0);
            if j0 + 1 < sz0 {
                gj = j0 + 1;
            } else {
                gh = h0 + 1;
                gj = 0;
            }
            // earlier nodes are untouched by the push
            assert forall|i: int| 0 <= i < t_old.len() implies node_ok(nn, trace@, i) by {
                assert(node_ok(nn, t_old, i));
                assert(trace@[i] == t_old[i]);
            }
            let flush = j0 == 0 && h0 >= 1 && szp % 2 == 1;
            if batch_at(nn, h0, j0).len() == 0 {
                // the item was only buffered
                assert(emitted is None);
                assert(trace@ == t_old);
                assert(!flush);
                if j0 + 1 < sz0 {
                    assert(len_at(nn, h0, (j0 + 1) as nat) == len_at(nn, h0, j0)) by {
                        lemma_fundamental_div_mod(j0 as int, 2);
                        lemma_fundamental_div_mod(j0 as int + 1, 2);
                    }
                    assert(coord.batch@ == batch_at(nn, gh, gj));
                } else {
                    // crossing into the next layer with the odd tail pending
                    assert(j0 % 2 == 0 && j0 + 1 == sz0 && sz0 % 2 == 1);
                    assert(coord.batch@ == batch_at(nn, gh, gj));
                    assert(trace@.len() == len_at(nn, gh, gj));
                }
            } else {
                // the pending item and this one decide a witness
                let prev = batch_at(nn, h0, j0)[0];
                assert(coord.count == trace@.len());
                let node = trace@.last();
                assert(trace@ == t_old.push(node));
                assert(trace@.len() == t_old.len() + 1);
                assert(node.index == t_old.len());
                if flush {
                    // promotion of the odd tail of the layer below
                    assert(prev.height == h0 - 1 && item.height == h0);
                    assert(node.kind == NodeKind::Promote(prev.index));
                    assert(node.height == h0);
                    assert(node.index == layer_off(nn, h0) + sz0 - 1);
                    assert(in_layer(nn, node.index as int, h0));
                    assert(node_ok(nn, trace@, node.index as int)) by {
                        let jpos = node.index - layer_off(nn, h0);
                        assert(jpos == sz0 - 1);
                        assert(2 * jpos + 1 == szp);
                        assert(prev.index == layer_off(nn, (h0 - 1) as nat) + 2 * jpos);
                    }
                    assert(!node.is_complete);
                    assert(!coord.done);
                    assert(gh == h0 && gj == j0 + 1);
                    assert(coord.batch@ == seq![item]);
                    assert(coord.batch@ == batch_at(nn, gh, gj));
                    assert(trace@.len() == len_at(nn, gh, gj));
                } else {
                    // a merge of the pending item and this one
                    assert(j0 % 2 == 1);
                    assert(prev.height == h0 && prev.index == layer_off(nn, h0) + j0 - 1);
                    assert(node.kind == NodeKind::Merge(prev.index, item.index));
                    assert(node.height == h0 + 1);
                    let jm = (j0 - 1) / 2;
                    assert(node.index == layer_off(nn, (h0 + 1) as nat) + jm);
                    assert(in_layer(nn, node.index as int, (h0 + 1) as nat));
                    assert(node_ok(nn, trace@, node.index as int)) by {
                        assert(2 * jm == j0 - 1 && 2 * jm + 1 == j0 < sz0);
                    }
                    if h0 + 1 == h_exp {
                        // the root: the schedule is finished
                        assert(node.is_complete && coord.done);
                        assert(j0 == 1 && node.index == layer_off(nn, h_exp as nat));
                        assert(trace@.len() == layer_off(nn, h_exp as nat) + 1);
                    } else {
                        assert(!node.is_complete && !coord.done);
                        assert(node.index < layer_off(nn, h_exp as nat));
                        if j0 + 1 < sz0 {
                            assert(gh == h0 && gj == j0 + 1);
                            assert(len_at(nn, h0, (j0 + 1) as nat) == len_at(nn, h0, j0) + 1) by {
                                lemma_fundamental_div_mod(j0 as int, 2);
                                lemma_fundamental_div_mod(j0 as int + 1, 2);
                            }
                            assert(coord.batch@ == batch_at(nn, gh, gj));
                        } else {
                            assert(gh == h0 + 1 && gj == 0);
                            assert(sz0 % 2 == 0);
                            assert(coord.batch@ == batch_at(nn, gh, gj));
                            assert(trace@.len() == len_at(nn, gh, gj));
                        }
                    }
                }
            }
            if !coord.done {
                assert(gh < h_exp) by {
                    if gh == h_exp {
                        assert(false);
                    }
                }
                assert(gj < layer_size(nn, 2, gh));
                lemma_len_at_bounds(nn, h_exp as nat, gh, gj);
                assert(p == layer_off(nn, gh) + gj);
                assert(p < trace@.len());
                assert(trace@.len() <= layer_off(nn, h_exp as nat) + 1);
            }
        }
    }
    proof {
        let rh = h_exp as nat;
        let t = trace@;
        assert(t.last() == t[t.len() - 1]);
        assert(in_layer(n as nat, t.len() - 1, rh)) by {
            assert(layer_size(n as nat, 2, rh) == 1);
        }
        assert(t.last().height == h_exp) by {
            assert(node_ok(n as nat, t, t.len() - 1));
            lemma_layer_disjoint(n as nat, t.len() - 1, t.last().height as nat, rh);
        }
        assert forall|i: int| 0 <= i < t.len() implies ((#[trigger] t[i]).is_complete <==> i
            == t.len() - 1) by {
            assert(node_ok(n as nat, t, i));
            if t[i].is_complete {
                assert(t[i].height == h_exp);
                assert(in_layer(n as nat, i, rh));
            }
            if i == t.len() - 1 {
                assert(t[i].height == h_exp);
            }
        }
    }
    trace
}

/// Law: composing a single leaf executes no merge step. A valid schedule over
/// one leaf holds exactly that leaf, already marked complete: the pipeline
/// degenerates to proving the one witness, whose proof is the root.
pub proof fn lemma_single_leaf_schedule(t: Seq<Node>)
    requires
        valid_schedule(1, t),
    ensures
        t.len() == 1,
        t[0].kind == NodeKind::Leaf,
        t[0].is_complete,
        t[0].height == 0,
{
    let rh = t.last().height as nat;
    assert(layer_size(1, 2, 0) == 1);
    if rh != 0 {
        assert(layer_size(1, 2, 0) >= 2);
    }
    assert(layer_off(1, 0) == 0);
    assert(node_ok(1, t, 0));
}

/// Law: the reduction schedule is deterministic. Any two valid schedules over
/// the same number of leaves are identical, node for node: which witnesses merge
/// with which, at what height and in what order is fully pinned down. Racing
/// worker pools of any size cannot change it, because the turn-based primitive
/// fixes the emission order to the sequence indices; so two runs over the same
/// inputs produce roots attesting the same verifying key and public values.
pub proof fn lemma_schedule_deterministic(n: nat, t1: Seq<Node>, t2: Seq<Node>)
    requires
        n >= 1,
        valid_schedule(n, t1),
        valid_schedule(n, t2),
    ensures
        t1 == t2,
{
    let rh1 = t1.last().height as nat;
    let rh2 = t2.last().height as nat;
    crate::height::lemma_height_unique(n, 2, rh1, rh2);
    assert(t1.len() == t2.len());
    assert forall|i: int| 0 <= i < t1.len() implies t1[i] == t2[i] by {
        assert(node_ok(n, t1, i));
        assert(node_ok(n, t2, i));
        lemma_layer_disjoint(n, i, t1[i].height as nat, t2[i].height as nat);
        assert(t1[i].height == t2[i].height);
        assert(t1[i].kind == t2[i].kind);
        assert(t1[i].is_complete == t2[i].is_complete);
    }
    assert(t1 =~= t2);
}

/// The arithmetic of one coordinator step at position (`h`, `j`): where the next
/// position sits, how the node count moves, and that a node emitted now lands at
/// the right index of the right layer with the right children.
#[verifier::rlimit(60)]
proof fn lemma_step_arith(n: nat, h_exp: nat, h: nat, j: nat)
    requires
        n >= 2,
        h < h_exp,
        forall|g: nat| g < h_exp ==> #[trigger] layer_size(n, 2, g) >= 2,
        layer_size(n, 2, h_exp) == 1,
        j < layer_size(n, 2, h),
    ensures
        // consuming one more item of the same layer
        j + 1 < layer_size(n, 2, h) && j % 2 == 0 ==> len_at(n, h, (j + 1) as nat) == len_at(
            n,
            h,
            j,
        ) + (if j == 0 && h >= 1 && layer_size(n, 2, (h - 1) as nat) % 2 == 1 {
            1int
        } else {
            0int
        }),
        j + 1 < layer_size(n, 2, h) && j % 2 == 1 ==> len_at(n, h, (j + 1) as nat) == len_at(
            n,
            h,
            j,
        ) + 1,
        // crossing into the next layer
        j + 1 == layer_size(n, 2, h) && j % 2 == 0 ==> len_at(n, (h + 1) as nat, 0) == len_at(
            n,
            h,
            j,
        ) + (if j == 0 && h >= 1 && layer_size(n, 2, (h - 1) as nat) % 2 == 1 {
            1int
        } else {
            0int
        }) && layer_size(n, 2, h) % 2 == 1,
        j + 1 == layer_size(n, 2, h) && j % 2 == 1 ==> len_at(n, (h + 1) as nat, 0) == len_at(
            n,
            h,
            j,
        ) + 1 && layer_size(n, 2, h) % 2 == 0,
        // a merge emitted after an odd item lands at the right place
        j % 2 == 1 ==> {
            let idx = len_at(n, h, j);
            let jm = (j - 1) / 2;
            &&& idx == layer_off(n, (h + 1) as nat) + jm
            &&& 0 <= jm < layer_size(n, 2, (h + 1) as nat)
            &&& 2 * jm == j - 1
            &&& (jm == layer_size(n, 2, (h + 1) as nat) - 1 && h + 1 == h_exp) <==> (idx
                == layer_off(n, h_exp))
            &&& (h + 1 == h_exp) ==> (j == 1 && idx == layer_off(n, h_exp))
            &&& (h + 1 < h_exp) ==> idx < layer_off(n, h_exp)
        },
        // a promotion emitted when the layer below had an odd tail lands right
        j == 0 && h >= 1 && layer_size(n, 2, (h - 1) as nat) % 2 == 1 ==> {
            let idx = len_at(n, h, 0);
            &&& idx == layer_off(n, h) + layer_size(n, 2, h) - 1
            &&& 2 * (layer_size(n, 2, h) - 1) + 1 == layer_size(n, 2, (h - 1) as nat)
            &&& layer_off(n, (h - 1) as nat) + 2 * (layer_size(n, 2, h) - 1) == layer_off(n, h)
                - 1
            &&& idx < layer_off(n, h_exp)
        },
        // the layer below the root always holds exactly two nodes
        h + 1 == h_exp ==> layer_size(n, 2, h) == 2,
{
    lemma_layer_size_pos(n, 2, h);
    let sz = layer_size(n, 2, h) as int;
    let szn = layer_size(n, 2, (h + 1) as nat) as int;
    lemma_sz_step(n, h);
    lemma_fundamental_div_mod(j as int, 2);
    lemma_fundamental_div_mod(j as int + 1, 2);
    lemma_fundamental_div_mod(sz, 2);
    if h >= 1 {
        lemma_sz_step(n, (h - 1) as nat);
        lemma_layer_size_pos(n, 2, (h - 1) as nat);
        lemma_fundamental_div_mod(layer_size(n, 2, (h - 1) as nat) as int, 2);
    }
    if h + 1 == h_exp {
        // the chain reaches one node exactly when the layer below holds two
        assert(szn == 1);
        assert(sz >= 2);
        assert(sz == 2) by {
            lemma_fundamental_div_mod(sz - 1, 2);
        }
    }
    if h + 1 < h_exp {
        lemma_end_mono(n, (h + 1) as nat, (h_exp - 1) as nat);
        assert(layer_off(n, h_exp) == layer_off(n, (h_exp - 1) as nat) + layer_size(
            n,
            2,
            (h_exp - 1) as nat,
        ));
    }
    if j % 2 == 1 {
        assert(len_at(n, h, j) == layer_off(n, (h + 1) as nat) + (j - 1) / 2) by {
            lemma_fundamental_div_mod(j as int - 1, 2);
            lemma_fundamental_div_mod(j as int, 2);
            assert(layer_off(n, (h + 1) as nat) == layer_off(n, h) + layer_size(n, 2, h));
        }
        assert((j - 1) / 2 < szn) by {
            lemma_fundamental_div_mod(j as int - 1, 2);
        }
    }
}

} // verus!
