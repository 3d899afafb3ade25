use vstd::prelude::*;

verus! {

use crate::types::elems_wf;
use p3_field::AbstractField;
use p3_field::PrimeField32;

/// The digest of an inner Merkle node over the digests of its two children.
///
/// The underlying hash takes pages to state, so only its name is given here; it
/// is a function of the two child digests alone.
pub uninterp spec fn node_hash_of(left: Seq<u32>, right: Seq<u32>) -> Seq<u32>;

/// Relies on sp1_primitives::poseidon2_hash: one Poseidon2 hash over the sixteen
/// elements of two digests; the result is canonical field elements and depends on
/// the input elements alone.
#[verifier::external_body]
fn compress_nodes(left: &[u32; 8], right: &[u32; 8]) -> (r: [u32; 8])
    requires
        elems_wf(left@),
        elems_wf(right@),
    ensures
        r@ == node_hash_of(left@, right@),
        elems_wf(r@),
{
    let mut v = Vec::with_capacity(16);
    for x in left.iter() {
        v.push(p3_baby_bear::BabyBear::from_canonical_u32(*x));
    }
    for x in right.iter() {
        v.push(p3_baby_bear::BabyBear::from_canonical_u32(*x));
    }
    let out = sp1_primitives::poseidon2_hash(v);
    out.map(|x: p3_baby_bear::BabyBear| x.as_canonical_u32())
}

/// `n` is a power of two.
pub open spec fn is_pow2(n: nat) -> bool
    decreases n,
{
    if n <= 1 {
        n == 1
    } else {
        n % 2 == 0 && is_pow2(n / 2)
    }
}

/// The ancestor of leaf `i` at level `l`: the index within layer `l` of the node
/// whose subtree contains leaf `i`.
pub open spec fn anc(i: nat, l: nat) -> nat
    decreases l,
{
    if l == 0 {
        i
    } else {
        anc(i, (l - 1) as nat) / 2
    }
}

/// The root digest recomputed from a leaf digest, its index parity path and the
/// sibling digests along the way; this is what inclusion verification compares
/// against the committed root.
pub open spec fn recompute_root(cur: Seq<u32>, idx: nat, path: Seq<[u32; 8]>) -> Seq<u32>
    decreases path.len(),
{
    if path.len() == 0 {
        cur
    } else {
        recompute_root(
            if idx % 2 == 0 {
                node_hash_of(cur, path[0]@)
            } else {
                node_hash_of(path[0]@, cur)
            },
            idx / 2,
            path.skip(1),
        )
    }
}

/// A binary Merkle tree over an ordered, fixed set of digests: the commitment
/// behind the allow-list of verifying keys. Built once, read-only thereafter.
pub struct MerkleTree {
    /// All tree layers: layer 0 holds the leaf digests (padded with the zero
    /// digest to a power of two) and each further layer hashes pairs of the
    /// layer below, down to the single root.
    pub layers: Vec<Vec<[u32; 8]>>,
}

impl MerkleTree {
    /// Structural well-formedness: layers halve exactly, every inner node is the
    /// hash of its two children, and all digests are canonical field elements.
    pub open spec fn wf(self) -> bool {
        &&& self.layers@.len() >= 1
        &&& self.layers@.last()@.len() == 1
        &&& forall|l: int|
            0 <= l < self.layers@.len() - 1 ==> #[trigger] self.layers@[l]@.len() == 2 * self.layers@[
                l + 1
            ]@.len()
        &&& forall|l: int, j: int|
            0 <= l < self.layers@.len() - 1 && 0 <= j < self.layers@[l + 1]@.len()
                ==> #[trigger] self.layers@[l + 1]@[j]@ == node_hash_of(
                self.layers@[l]@[2 * j]@,
                self.layers@[l]@[2 * j + 1]@,
            )
        &&& forall|l: int, j: int|
            0 <= l < self.layers@.len() && 0 <= j < self.layers@[l]@.len() ==> elems_wf(
                #[trigger] self.layers@[l]@[j]@,
            )
    }

    /// The number of leaf slots (committed digests plus padding).
    pub open spec fn leaf_count(self) -> nat {
        self.layers@[0]@.len()
    }

    /// The committed root digest.
    pub open spec fn root_spec(self) -> [u32; 8] {
        self.layers@.last()@[0]
    }

    /// The height of the tree: the number of hashing levels, equal to the length
    /// of every inclusion path.
    pub open spec fn height_spec(self) -> nat {
        (self.layers@.len() - 1) as nat
    }

    pub fn height(&self) -> (h: usize)
        requires
            self.wf(),
        ensures
            h == self.height_spec(),
    {
        self.layers.len() - 1
    }

    pub fn root(&self) -> (r: [u32; 8])
        requires
            self.wf(),
        ensures
            r == self.root_spec(),
    {
        let top = &self.layers[self.layers.len() - 1];
        top[0]
    }

    /// Builds the Merkle commitment over the given digests in their given order:
    /// the root plus the tree from which inclusion proofs are opened. The leaf
    /// layer is the input, in order, padded with the zero digest to the next
    /// power of two.
    pub fn commit(leaves: &Vec<[u32; 8]>) -> (res: ([u32; 8], MerkleTree))
        requires
            leaves@.len() >= 1,
            leaves@.len() <= 0x2000_0000,
            forall|i: int| 0 <= i < leaves@.len() ==> elems_wf(#[trigger] leaves@[i]@),
        ensures
            res.1.wf(),
            res.0 == res.1.root_spec(),
            res.1.leaf_count() >= leaves@.len(),
            is_pow2(res.1.leaf_count()),
            forall|i: int| 0 <= i < leaves@.len() ==> res.1.layers@[0]@[i] == leaves@[i],
            forall|i: int|
                leaves@.len() <= i < res.1.leaf_count() ==> (#[trigger] res.1.layers@[0]@[i])@
                    =~= Seq::<u32>::new(8, |k: int| 0u32),
    {
        let n = leaves.len();
        let mut p: usize = 1;
        while p < n
            invariant
                1 <= n <= 0x2000_0000,
                1 <= p,
                is_pow2(p as nat),
                p < 2 * n,
            decreases 2 * n - p,
        {
            assert(is_pow2((2 * p) as nat)) by {
                assert((2 * p) as nat % 2 == 0);
                assert(((2 * p) as nat) / 2 == p as nat);
            }
            p = p * 2;
        }
        let mut layer0: Vec<[u32; 8]> = Vec::new();
        let mut i: usize = 0;
        while i < n
            invariant
                0 <= i <= n,
                n == leaves@.len(),
                layer0@.len() == i,
                forall|j: int| 0 <= j < i ==> layer0@[j] == leaves@[j],
            decreases n - i,
        {
            layer0.push(leaves[i]);
            i = i + 1;
        }
        while layer0.len() < p
            invariant
                n == leaves@.len(),
                n <= layer0@.len() <= p,
                forall|j: int| 0 <= j < n ==> layer0@[j] == leaves@[j],
                forall|j: int|
                    n <= j < layer0@.len() ==> (#[trigger] layer0@[j])@ =~= Seq::<u32>::new(
                        8,
                        |k: int| 0u32,
                    ),
            decreases p - layer0.len(),
        {
            layer0.push([0u32; 8]);
        }
        assert(forall|j: int| 0 <= j < layer0@.len() ==> elems_wf(#[trigger] layer0@[j]@)) by {
            assert(forall|j: int|
                n <= j < layer0@.len() ==> ((#[trigger] layer0@[j])@ =~= Seq::<u32>::new(
                    8,
                    |k: int| 0u32,
                )));
        }
        let ghost pow = p as nat;
        let ghost l0 = layer0@;
        let mut layers: Vec<Vec<[u32; 8]>> = Vec::new();
        layers.push(layer0);
        while layers[layers.len() - 1].len() > 1
            invariant
                layers@.len() >= 1,
                layers@[0]@ =~= l0,
                is_pow2(layers@.last()@.len() as nat),
                forall|l: int|
                    0 <= l < layers@.len() - 1 ==> #[trigger] layers@[l]@.len() == 2 * layers@[l
                        + 1]@.len(),
                forall|l: int, j: int|
                    0 <= l < layers@.len() - 1 && 0 <= j < layers@[l + 1]@.len()
                        ==> #[trigger] layers@[l + 1]@[j]@ == node_hash_of(
                        layers@[l]@[2 * j]@,
                        layers@[l]@[2 * j + 1]@,
                    ),
                forall|l: int, j: int|
                    0 <= l < layers@.len() && 0 <= j < layers@[l]@.len() ==> elems_wf(
                        #[trigger] layers@[l]@[j]@,
                    ),
                layers@[0]@.len() == pow,
            decreases layers@.last()@.len(),
        {
            let prev_len = layers[layers.len() - 1].len();
            assert(prev_len as nat % 2 == 0 && is_pow2((prev_len / 2) as nat));
            let half = prev_len / 2;
            let mut next: Vec<[u32; 8]> = Vec::new();
            let mut j: usize = 0;
            while j < half
                invariant
                    0 <= j <= half,
                    layers@.len() >= 1,
                    prev_len == layers@.last()@.len(),
                    half == prev_len / 2,
                    prev_len % 2 == 0,
                    next@.len() == j,
                    forall|k: int|
                        0 <= k < j ==> #[trigger] next@[k]@ == node_hash_of(
                            layers@.last()@[2 * k]@,
                            layers@.last()@[2 * k + 1]@,
                        ),
                    forall|k: int| 0 <= k < j ==> elems_wf(#[trigger] next@[k]@),
                    forall|l: int, jj: int|
                        0 <= l < layers@.len() && 0 <= jj < layers@[l]@.len() ==> elems_wf(
                            #[trigger] layers@[l]@[jj]@,
                        ),
                decreases half - j,
            {
                let last = &layers[layers.len() - 1];
                let h = compress_nodes(&last[2 * j], &last[2 * j + 1]);
                next.push(h);
                j = j + 1;
            }
            layers.push(next);
        }
        let tree = MerkleTree { layers };
        let r = tree.root();
        (r, tree)
    }

    /// Opens an inclusion proof for the leaf at `index`: the leaf digest plus the
    /// sibling digest at every level from the leaves up to just below the root.
    pub fn open(tree: &MerkleTree, index: usize) -> (res: ([u32; 8], Vec<[u32; 8]>))
        requires
            tree.wf(),
            index < tree.leaf_count(),
        ensures
            res.0 == tree.layers@[0]@[index as int],
            res.1@.len() == tree.height_spec(),
            forall|l: int|
                0 <= l < res.1@.len() ==> #[trigger] res.1@[l] == tree.layers@[l]@[
                    sibling_of(anc(index as nat, l as nat)) as int
                ],
    {
        let leaf = self_layer_index(tree, 0, index);
        let mut path: Vec<[u32; 8]> = Vec::new();
        let mut cur: usize = index;
        let mut l: usize = 0;
        let height = tree.layers.len() - 1;
        while l < height
            invariant
                tree.wf(),
                0 <= l <= height,
                height == tree.height_spec(),
                cur == anc(index as nat, l as nat),
                cur < tree.layers@[l as int]@.len(),
                path@.len() == l,
                forall|k: int|
                    0 <= k < l ==> #[trigger] path@[k] == tree.layers@[k]@[
                        sibling_of(anc(index as nat, k as nat)) as int
                    ],
            decreases height - l,
        {
            proof {
                lemma_layer_len_even(*tree, l as int);
            }
            let sib: usize = if cur % 2 == 0 {
                cur + 1
            } else {
                cur - 1
            };
            let layer = &tree.layers[l];
            path.push(layer[sib]);
            cur = cur / 2;
            l = l + 1;
        }
        (leaf, path)
    }

    /// Checks a claimed (leaf digest, index, sibling path) against a committed
    /// root: recomputes the chain of node hashes and compares. Succeeds exactly
    /// when the recomputed root equals the given one.
    pub fn verify_inclusion(
        root: &[u32; 8],
        leaf: &[u32; 8],
        index: usize,
        path: &Vec<[u32; 8]>,
    ) -> (ok: bool)
        requires
            elems_wf(leaf@),
            forall|l: int| 0 <= l < path@.len() ==> elems_wf(#[trigger] path@[l]@),
        ensures
            ok == (recompute_root(leaf@, index as nat, path@) == root@),
    {
        let mut cur: [u32; 8] = *leaf;
        let mut idx: usize = index;
        let mut l: usize = 0;
        proof {
            assert(path@.skip(0) =~= path@);
        }
        while l < path.len()
            invariant
                0 <= l <= path@.len(),
                elems_wf(cur@),
                forall|k: int| 0 <= k < path@.len() ==> elems_wf(#[trigger] path@[k]@),
                idx == anc(index as nat, l as nat),
                recompute_root(leaf@, index as nat, path@) == recompute_root(
                    cur@,
                    idx as nat,
                    path@.skip(l as int),
                ),
            decreases path@.len() - l,
        {
            proof {
                assert(path@.skip(l as int)[0] == path@[l as int]);
                assert(path@.skip(l as int).skip(1) =~= path@.skip(l + 1));
            }
            let sibling = &path[l];
            cur = if idx % 2 == 0 {
                compress_nodes(&cur, sibling)
            } else {
                compress_nodes(sibling, &cur)
            };
            idx = idx / 2;
            l = l + 1;
        }
        proof {
            assert(path@.skip(path@.len() as int) =~= Seq::<[u32; 8]>::empty());
        }
        digest_eq(&cur, root)
    }
}

/// The sibling index of a node within its layer.
pub open spec fn sibling_of(j: nat) -> nat {
    if j % 2 == 0 {
        j + 1
    } else {
        (j - 1) as nat
    }
}

/// Every layer below the top of a well-formed tree has even length.
proof fn lemma_layer_len_even(tree: MerkleTree, l: int)
    requires
        tree.wf(),
        0 <= l < tree.layers@.len() - 1,
    ensures
        tree.layers@[l]@.len() % 2 == 0,
        tree.layers@[l]@.len() == 2 * tree.layers@[l + 1]@.len(),
{
}

/// Reads one digest out of a layer.
fn self_layer_index(tree: &MerkleTree, l: usize, j: usize) -> (d: [u32; 8])
    requires
        tree.wf(),
        l < tree.layers@.len(),
        j < tree.layers@[l as int]@.len(),
    ensures
        d == tree.layers@[l as int]@[j as int],
{
    let layer = &tree.layers[l];
    layer[j]
}

/// Compares two digests element by element.
pub fn digest_eq(a: &[u32; 8], b: &[u32; 8]) -> (r: bool)
    ensures
        r == (a@ == b@),
{
    let mut i: usize = 0;
    let mut eq = true;
    while i < 8
        invariant
            0 <= i <= 8,
            eq == (forall|k: int| 0 <= k < i ==> a@[k] == b@[k]),
        decreases 8 - i,
    {
        if a[i] != b[i] {
            eq = false;
        }
        i = i + 1;
    }
    proof {
        if eq {
            assert(a@ =~= b@);
        }
    }
    eq
}

/// Law: inclusion proofs are complete — for every committed index, the proof
/// opened from a well-formed tree recomputes exactly the tree's root, so
/// verification against the root succeeds.
pub proof fn lemma_open_verifies(tree: MerkleTree, index: nat, path: Seq<[u32; 8]>)
    requires
        tree.wf(),
        index < tree.leaf_count(),
        path.len() == tree.height_spec(),
        forall|l: int|
            0 <= l < path.len() ==> #[trigger] path[l] == tree.layers@[l]@[
                sibling_of(anc(index, l as nat)) as int
            ],
    ensures
        recompute_root(tree.layers@[0]@[index as int]@, index, path) == tree.root_spec()@,
{
    lemma_anc_in_layer(tree, index, 0);
    lemma_recompute_from_level(tree, index, path, 0);
    assert(anc(index, 0) == index);
    assert(path.skip(0) =~= path);
}

/// The ancestor of a committed leaf stays inside its layer at every level.
proof fn lemma_anc_in_layer(tree: MerkleTree, index: nat, l: nat)
    requires
        tree.wf(),
        index < tree.leaf_count(),
        l < tree.layers@.len(),
    ensures
        anc(index, l) < tree.layers@[l as int]@.len(),
    decreases l,
{
    if l > 0 {
        lemma_anc_in_layer(tree, index, (l - 1) as nat);
    }
}

/// Recomputation from any level upward lands on the root.
proof fn lemma_recompute_from_level(tree: MerkleTree, index: nat, path: Seq<[u32; 8]>, l: nat)
    requires
        tree.wf(),
        index < tree.leaf_count(),
        l <= tree.height_spec(),
        path.len() == tree.height_spec(),
        forall|k: int|
            0 <= k < path.len() ==> #[trigger] path[k] == tree.layers@[k]@[
                sibling_of(anc(index, k as nat)) as int
            ],
    ensures
        recompute_root(
            tree.layers@[l as int]@[anc(index, l) as int]@,
            anc(index, l),
            path.skip(l as int),
        ) == tree.root_spec()@,
    decreases tree.height_spec() - l,
{
    lemma_anc_in_layer(tree, index, l);
    let a = anc(index, l);
    if l == tree.height_spec() {
        assert(path.skip(l as int) =~= Seq::<[u32; 8]>::empty());
        assert(a == 0);
    } else {
        lemma_anc_in_layer(tree, index, (l + 1) as nat);
        let cur = tree.layers@[l as int]@[a as int]@;
        let sib = tree.layers@[l as int]@[sibling_of(a) as int]@;
        assert(path.skip(l as int)[0] == path[l as int]);
        assert(path.skip(l as int).skip(1) =~= path.skip(l as int + 1));
        assert(anc(index, (l + 1) as nat) == a / 2);
        let parent = tree.layers@[l as int + 1]@[(a / 2) as int]@;
        if a % 2 == 0 {
            assert(2 * (a / 2) == a);
            assert(parent == node_hash_of(cur, sib));
        } else {
            assert(2 * (a / 2) == a - 1);
            assert(parent == node_hash_of(sib, cur));
        }
        lemma_recompute_from_level(tree, index, path, (l + 1) as nat);
    }
}

} // verus!
