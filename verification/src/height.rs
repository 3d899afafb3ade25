use vstd::prelude::*;

verus! {

use vstd::arithmetic::div_mod::lemma_div_decreases;

/// Ceiling of `n / b`, the number of groups of size at most `b` covering `n` items.
pub open spec fn ceil_div(n: nat, b: nat) -> nat
    recommends
        b >= 1,
{
    if n == 0 {
        0
    } else {
        ((n - 1) / b as int + 1) as nat
    }
}

/// The number of nodes in layer `h` of the reduction tree over `n` leaves with
/// merge arity `b`: layer 0 holds the leaves, and each following layer holds one
/// node per group of at most `b` nodes of the layer below.
pub open spec fn layer_size(n: nat, b: nat, h: nat) -> nat
    decreases h,
{
    if h == 0 {
        n
    } else {
        ceil_div(layer_size(n, b, (h - 1) as nat), b)
    }
}

pub proof fn lemma_ceil_div_pos(n: nat, b: nat)
    requires
        n >= 1,
        b >= 1,
    ensures
        ceil_div(n, b) >= 1,
{
}

/// A layer of at least two nodes shrinks strictly.
pub proof fn lemma_ceil_div_decreases(n: nat, b: nat)
    requires
        n >= 2,
        b >= 2,
    ensures
        1 <= ceil_div(n, b) < n,
{
    lemma_div_decreases(n - 1, b as int);
}

/// The number of batches of size `b` covering `len` items is pinned by the range
/// the last batch ends in.
pub proof fn lemma_ceil_div_exact(len: nat, b: nat, k: nat)
    requires
        b >= 1,
        k * b < len <= (k + 1) * b,
    ensures
        ceil_div(len, b) == k + 1,
{
    assert((k + 1) * b == k * b + b) by (nonlinear_arith);
    vstd::arithmetic::div_mod::lemma_fundamental_div_mod_converse(
        len as int - 1,
        b as int,
        k as int,
        len as int - 1 - k * b,
    );
}

/// Batches of one cover a sequence one element each.
pub proof fn lemma_ceil_div_by_one(n: nat)
    ensures
        ceil_div(n, 1) == n,
{
    if n > 0 {
        vstd::arithmetic::div_mod::lemma_fundamental_div_mod_converse(
            n as int - 1,
            1,
            n as int - 1,
            0,
        );
    }
}

/// Layers never die out: over at least one leaf, every layer has at least one node.
pub proof fn lemma_layer_size_pos(n: nat, b: nat, h: nat)
    requires
        n >= 1,
        b >= 1,
    ensures
        layer_size(n, b, h) >= 1,
    decreases h,
{
    if h > 0 {
        lemma_layer_size_pos(n, b, (h - 1) as nat);
        lemma_ceil_div_pos(layer_size(n, b, (h - 1) as nat), b);
    }
}

/// The height at which the chain reaches one node is unique: two heights that both
/// sit at one node, with every layer strictly below them above one node, are equal.
pub proof fn lemma_height_unique(n: nat, b: nat, h1: nat, h2: nat)
    requires
        n >= 1,
        b >= 2,
        layer_size(n, b, h1) == 1,
        forall|h: nat| h < h1 ==> #[trigger] layer_size(n, b, h) >= 2,
        layer_size(n, b, h2) == 1,
        forall|h: nat| h < h2 ==> #[trigger] layer_size(n, b, h) >= 2,
    ensures
        h1 == h2,
{
}

/// The expected height of the reduction tree: the number of merge layers applied,
/// by repeated ceiling division, until a single root node is left.
///
/// This is the value precomputed before the pipeline starts; the coordinator marks
/// a produced witness complete exactly when its height reaches this value.
pub fn expected_height(n: usize, b: usize) -> (h: usize)
    requires
        1 <= n,
        2 <= b,
    ensures
        layer_size(n as nat, b as nat, h as nat) == 1,
        forall|g: nat| g < h ==> #[trigger] layer_size(n as nat, b as nat, g) >= 2,
        h <= n,
{
    let mut num: usize = n;
    let mut h: usize = 0;
    while num > 1
        invariant
            1 <= n,
            2 <= b,
            1 <= num <= n,
            num == layer_size(n as nat, b as nat, h as nat),
            h + num <= n,
            forall|g: nat| g < h ==> #[trigger] layer_size(n as nat, b as nat, g) >= 2,
        decreases num,
    {
        proof {
            lemma_ceil_div_decreases(num as nat, b as nat);
        }
        num = (num - 1) / b + 1;
        h = h + 1;
    }
    h
}

/// Law: the precomputed expected height equals the height produced by exhaustively
/// simulating the reduction (following the layer-size chain until one node is left).
/// `h_pre` is any value meeting `expected_height`'s contract and `sizes` is the
/// simulated chain of layer sizes, ending at its first 1.
pub proof fn lemma_expected_height_matches_simulation(n: nat, b: nat, h_pre: nat, sizes: Seq<nat>)
    requires
        n >= 1,
        b >= 2,
        layer_size(n, b, h_pre) == 1,
        forall|g: nat| g < h_pre ==> #[trigger] layer_size(n, b, g) >= 2,
        sizes.len() >= 1,
        forall|i: int| 0 <= i < sizes.len() ==> sizes[i] == layer_size(n, b, i as nat),
        sizes.last() == 1,
        forall|i: int| 0 <= i < sizes.len() - 1 ==> sizes[i] >= 2,
    ensures
        sizes.len() - 1 == h_pre,
{
    let h2 = (sizes.len() - 1) as nat;
    assert(layer_size(n, b, h2) == 1);
    assert forall|h: nat| h < h2 implies #[trigger] layer_size(n, b, h) >= 2 by {
        assert(sizes[h as int] == layer_size(n, b, h));
    }
    lemma_height_unique(n, b, h_pre, h2);
}

/// The exhaustive simulation of the layer-size chain: every layer size from the
/// leaves down to the single root, computed by repeated ceiling division.
pub fn simulate_layer_sizes(n: usize, b: usize) -> (sizes: Vec<usize>)
    requires
        1 <= n,
        2 <= b,
    ensures
        sizes.len() >= 1,
        forall|i: int|
            0 <= i < sizes.len() ==> sizes[i] == layer_size(n as nat, b as nat, i as nat),
        sizes@.last() == 1,
        forall|i: int| 0 <= i < sizes.len() - 1 ==> sizes[i] >= 2,
    decreases n,
{
    let mut sizes: Vec<usize> = Vec::new();
    let mut num: usize = n;
    sizes.push(num);
    while num > 1
        invariant
            1 <= n,
            2 <= b,
            1 <= num <= n,
            sizes.len() >= 1,
            num == layer_size(n as nat, b as nat, (sizes.len() - 1) as nat),
            sizes.len() - 1 + num <= n,
            forall|i: int|
                0 <= i < sizes.len() ==> sizes[i] == layer_size(n as nat, b as nat, i as nat),
            forall|i: int| 0 <= i < sizes.len() - 1 ==> sizes[i] >= 2,
        decreases num,
    {
        proof {
            lemma_ceil_div_decreases(num as nat, b as nat);
        }
        num = (num - 1) / b + 1;
        sizes.push(num);
    }
    sizes
}

} // verus!

