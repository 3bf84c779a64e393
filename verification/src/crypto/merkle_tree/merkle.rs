use vstd::prelude::*;
use vstd::slice::slice_subrange;
use crate::crypto::merkle_tree::digest::spec_hash_branch;
use crate::crypto::merkle_tree::digest::Digest;
use crate::crypto::merkle_tree::digest::DigestExt;
use crate::crypto::merkle_tree::hash;
use crate::crypto::merkle_tree::inclusion::spec_root;
use crate::crypto::merkle_tree::inclusion::spec_views;
use crate::crypto::merkle_tree::inclusion::Proof;
use crate::crypto::merkle_tree::laws::lemma_tree_root;
use crate::crypto::merkle_tree::laws::spec_merkle_root;
use crate::crypto::merkle_tree::math::height_of;
use crate::crypto::merkle_tree::math::is_pow2;
use crate::crypto::merkle_tree::math::leaves_of;
use crate::crypto::merkle_tree::math::spec_is_pow2;
use crate::crypto::merkle_tree::math::spec_leaves;
use crate::crypto::merkle_tree::math::spec_log2;
use crate::crypto::merkle_tree::math::spec_pow2;
use crate::crypto::merkle_tree::math::total_of;
use crate::crypto::merkle_tree::node::Node;
use crate::crypto::merkle_tree::node::NodeView;

verus! {

/// The bytes of a run of hashes.
pub open spec fn spec_hash_views<D: Digest>(hashes: Seq<hash::Hash<D>>) -> Seq<Seq<u8>> {
    hashes.map_values(|hash: hash::Hash<D>| hash@)
}

/// Whether the node in slot `i` is the branch hash of the nodes in the
/// slots `2i + 1` and `2i + 2`, its children.
pub open spec fn spec_is_branch<D: Digest>(nodes: Seq<Seq<u8>>, i: int) -> bool {
    nodes[i] == spec_hash_branch::<D>(nodes[2 * i + 1], nodes[2 * i + 2])
}

/// Whether `nodes` is a perfect binary hash tree laid out root first: a
/// power of two of leaves in the last slots, before them one branch for
/// every two nodes, each the hash of its children, and every node an output
/// of `D`.
pub open spec fn spec_tree_wf<D: Digest>(nodes: Seq<Seq<u8>>) -> bool {
    &&& nodes.len() % 2 == 1
    &&& spec_is_pow2(spec_leaves(nodes.len()))
    &&& forall|i: int| 0 <= i < nodes.len() / 2 ==> #[trigger] spec_is_branch::<D>(nodes, i)
    &&& forall|i: int| 0 <= i < nodes.len() ==> (#[trigger] nodes[i]).len() == D::spec_output_size()
}

/// The sibling of the node in slot `index`, which is not the root: the node
/// before it where `index` is even, the node after it where `index` is odd.
pub open spec fn spec_sibling(nodes: Seq<Seq<u8>>, index: int) -> NodeView {
    if index % 2 == 0 {
        NodeView::L(nodes[index - 1])
    } else {
        NodeView::R(nodes[index + 1])
    }
}

/// The siblings on the way from slot `index` up to the root, the nearest
/// first.
pub open spec fn spec_path(nodes: Seq<Seq<u8>>, index: int) -> Seq<NodeView>
    decreases index,
{
    if index <= 0 {
        Seq::<NodeView>::empty()
    } else {
        seq![spec_sibling(nodes, index)] + spec_path(nodes, (index - 1) / 2)
    }
}

/// The number of steps from slot `index` up to the root.
pub open spec fn spec_depth(index: int) -> nat
    decreases index,
{
    if index <= 0 {
        0
    } else {
        1 + spec_depth((index - 1) / 2)
    }
}

/// A path has one node for every step up to the root.
pub proof fn lemma_path_len(nodes: Seq<Seq<u8>>, index: int)
    ensures
        spec_path(nodes, index).len() == spec_depth(index),
    decreases index,
{
    if index > 0 {
        lemma_path_len(nodes, (index - 1) / 2);
    }
}

/// Every leaf of a tree with a power of two of leaves is as many steps
/// below the root as the tree is high.
pub proof fn lemma_leaf_depth(leaves: nat, index: int)
    requires
        spec_is_pow2(leaves),
        leaves - 1 <= index <= 2 * leaves - 2,
    ensures
        spec_depth(index) == spec_log2(leaves),
    decreases leaves,
{
    if leaves >= 2 {
        lemma_leaf_depth(leaves / 2, (index - 1) / 2);
    }
}

/// The path from any slot of a tree leads from the node in that slot to the
/// root.
pub proof fn lemma_path_root<D: Digest>(nodes: Seq<Seq<u8>>, index: int)
    requires
        spec_tree_wf::<D>(nodes),
        0 <= index < nodes.len(),
    ensures
        spec_root::<D>(spec_path(nodes, index), nodes[index]) == nodes[0],
    decreases index,
{
    if index > 0 {
        let parent = (index - 1) / 2;
        let path = spec_path(nodes, index);
        let sibling = spec_sibling(nodes, index);
        assert(spec_is_branch::<D>(nodes, parent));
        assert(sibling.combine::<D>(nodes[index]) == nodes[parent]);
        assert(path.first() == sibling);
        assert(path.drop_first() =~= spec_path(nodes, parent));
        lemma_path_root::<D>(nodes, parent);
    }
}

/// Every path in a tree consists of outputs of `D`.
pub proof fn lemma_path_wf<D: Digest>(nodes: Seq<Seq<u8>>, index: int)
    requires
        spec_tree_wf::<D>(nodes),
        0 <= index < nodes.len(),
    ensures
        crate::crypto::merkle_tree::inclusion::spec_nodes_wf::<D>(spec_path(nodes, index)),
    decreases index,
{
    if index > 0 {
        let parent = (index - 1) / 2;
        let path = spec_path(nodes, index);
        lemma_path_wf::<D>(nodes, parent);
        assert forall|i: int| 0 <= i < path.len() implies (#[trigger] path[i]).wf::<D>() by {
            if i > 0 {
                assert(path[i] == spec_path(nodes, parent)[i - 1]);
            }
        }
    }
}

/// A Merkle tree over a fixed sequence of leaves, whose number is a power
/// of two.
///
/// The tree is a perfect binary tree, kept in one vector with the root in
/// slot 0 and the children of slot `i` in the slots `2i + 1` and `2i + 2`.
/// With the eight leaves A to H:
///
/// ```text
///                 0
///         1 ------------- 2
///     3 ----- 4      5 ------ 6
///   A - B   C - D   E - F   G - H
/// ```
///
/// the vector holds `[0, 1, 2, 3, 4, 5, 6, A, B, C, D, E, F, G, H]`, and the
/// root is `H(H(H(A | B) | H(C | D)) | H(H(E | F) | H(G | H)))`.
///
/// The view of a tree is the bytes of its nodes in that order.
#[derive(Debug)]
pub struct MTree<D: Digest> {
    nodes: Vec<hash::Hash<D>>,
}

impl<D: Digest> View for MTree<D> {
    type V = Seq<Seq<u8>>;

    closed spec fn view(&self) -> Seq<Seq<u8>> {
        spec_hash_views::<D>(self.nodes@)
    }
}

impl<D: Digest> MTree<D> {
    /// Every tree is a perfect binary hash tree.
    #[verifier::type_invariant]
    pub closed spec fn wf(&self) -> bool {
        spec_tree_wf::<D>(spec_hash_views::<D>(self.nodes@))
    }

    /// The number of leaves.
    pub open spec fn spec_leaves(&self) -> nat {
        spec_leaves(self@.len())
    }

    /// The hashes of the leaves, in their order.
    pub open spec fn spec_data(&self) -> Seq<Seq<u8>> {
        self@.subrange(self@.len() - self.spec_leaves(), self@.len() as int)
    }

    /// The number of leaves.
    pub fn leaves(&self) -> (leaves: usize)
        ensures
            leaves == self.spec_leaves(),
            spec_tree_wf::<D>(self@),
    {
        proof {
            use_type_invariant(self);
        }
        leaves_of(self.nodes.len())
    }

    /// The number of steps from a leaf to the root.
    pub fn height(&self) -> (height: usize)
        ensures
            height == spec_log2(self.spec_leaves()),
            spec_tree_wf::<D>(self@),
    {
        height_of(self.leaves())
    }

    /// The hash at the root: the root over the leaves.
    pub fn root(&self) -> (root: &hash::Hash<D>)
        ensures
            root@ == self@[0],
            root@ == spec_merkle_root::<D>(self.spec_data()),
            root.wf(),
            spec_tree_wf::<D>(self@),
    {
        proof {
            use_type_invariant(self);
        }
        let root = &self.nodes[0];
        proof {
            use_type_invariant(root);
            lemma_tree_root::<D>(self@);
        }
        root
    }

    /// The hashes of the leaves, in their order.
    pub fn data(&self) -> (data: &[hash::Hash<D>])
        ensures
            spec_hash_views::<D>(data@) == self.spec_data(),
            data@.len() == self.spec_leaves(),
            spec_tree_wf::<D>(self@),
    {
        let total = self.nodes.len();
        let leaves = self.leaves();
        let data = slice_subrange(self.nodes.as_slice(), total - leaves, total);
        assert(spec_hash_views::<D>(data@) =~= self.spec_data());
        data
    }

    /// The hashes of the nodes that are `index` steps below the root, left
    /// to right: the slots from `2^index - 1` up to `2^(index + 1) - 1`.
    /// Below the leaves there is nothing.
    pub fn layer(&self, index: usize) -> (layer: &[hash::Hash<D>])
        ensures
            spec_tree_wf::<D>(self@),
            2 * spec_pow2(index as nat) - 1 <= self@.len() ==> spec_hash_views::<D>(layer@)
                == self@.subrange(
                spec_pow2(index as nat) - 1,
                2 * spec_pow2(index as nat) - 1,
            ),
            2 * spec_pow2(index as nat) - 1 > self@.len() ==> layer@.len() == 0,
    {
        proof {
            use_type_invariant(self);
        }
        let total = self.nodes.len();
        let limit: usize = leaves_of(total) / 2;
        let mut leaves: usize = 1;
        let mut k: usize = 0;
        while k < index
            invariant
                k <= index,
                leaves == spec_pow2(k as nat),
                2 * leaves - 1 <= total,
                total == self.nodes@.len(),
                total == self@.len(),
                total % 2 == 1,
                leaves >= 1,
                spec_tree_wf::<D>(self@),
                limit == spec_leaves(total as nat) / 2,
            decreases index - k,
        {
            if leaves > limit {
                proof {
                    crate::crypto::merkle_tree::math::lemma_pow2_increases(
                        (k + 1) as nat,
                        index as nat,
                    );
                }
                return slice_subrange(self.nodes.as_slice(), 0, 0);
            }
            leaves = 2 * leaves;
            k = k + 1;
        }
        let layer = slice_subrange(self.nodes.as_slice(), leaves - 1, leaves - 1 + leaves);
        assert(spec_hash_views::<D>(layer@) =~= self@.subrange(
            spec_pow2(index as nat) - 1,
            2 * spec_pow2(index as nat) - 1,
        ));
        layer
    }

    /// The tree over `leaves`, where their number is a power of two and the
    /// tree fits into memory; nothing otherwise.
    pub fn from_leaves(leaves: &[hash::Hash<D>]) -> (out: Option<Self>)
        ensures
            out is Some <==> spec_is_pow2(leaves@.len()) && 2 * leaves@.len() - 1 <= usize::MAX,
            out matches Some(tree) ==> {
                &&& spec_tree_wf::<D>(tree@)
                &&& tree.spec_leaves() == leaves@.len()
                &&& tree.spec_data() == spec_hash_views::<D>(leaves@)
                &&& tree@[0] == spec_merkle_root::<D>(spec_hash_views::<D>(leaves@))
            },
    {
        let count = leaves.len();
        if !is_pow2(count) {
            return None;
        }
        if count - 1 > usize::MAX - count {
            return None;
        }
        let mut digest = D::new();
        let nodes = compute_nodes(&mut digest, leaves);
        let tree = MTree { nodes };
        proof {
            assert(tree@.len() == 2 * count - 1);
            assert forall|j: int| 0 <= j < count implies tree.spec_data()[j] == spec_hash_views::<
                D,
            >(leaves@)[j] by {
                assert(tree.spec_data()[j] == nodes@[leaves@.len() - 1 + j]@);
            }
            assert(tree.spec_data() =~= spec_hash_views::<D>(leaves@));
            lemma_tree_root::<D>(tree@);
        }
        Some(tree)
    }

    /// The inclusion proof of the leaf at `local`, counted from the left:
    /// the siblings from that leaf up to the root. There is one for every
    /// leaf, it has one node for every step of the tree's height, and it
    /// leads from that leaf's hash to the root. (The tree of one leaf has
    /// the empty proof.)
    pub fn inclusion_proof(&self, local: usize) -> (out: Option<Proof<D>>)
        ensures
            spec_tree_wf::<D>(self@),
            out is Some <==> local < self.spec_leaves(),
            out matches Some(path) ==> {
                &&& path@ == spec_path(self@, self.spec_leaves() - 1 + local)
                &&& path@.len() == spec_log2(self.spec_leaves())
                &&& spec_root::<D>(path@, self.spec_data()[local as int]) == self@[0]
                &&& crate::crypto::merkle_tree::inclusion::spec_nodes_wf::<D>(path@)
            },
    {
        let leaves: usize = self.leaves();
        if local >= leaves {
            return None;
        }
        let total: usize = self.nodes.len();
        assert(self@.len() == total);
        let start: usize = total_of(leaves) - leaves + local;
        let mut nodes: Vec<Node<D>> = Vec::new();
        let mut index: usize = start;
        assert(spec_views::<D>(nodes@) + spec_path(self@, index as int) =~= spec_path(
            self@,
            start as int,
        ));
        while index > 0
            invariant
                index <= start < total,
                total == self.nodes@.len(),
                total % 2 == 1,
                self@ == spec_hash_views::<D>(self.nodes@),
                spec_views::<D>(nodes@) + spec_path(self@, index as int) == spec_path(
                    self@,
                    start as int,
                ),
            decreases index,
        {
            let ghost before = spec_views::<D>(nodes@);
            let ghost sibling = spec_sibling(self@, index as int);
            assert(index & 1 == 0 <==> index % 2 == 0) by (bit_vector);
            if index & 1 == 0 {
                nodes.push(Node::L(self.nodes[index - 1].clone()));
            } else {
                nodes.push(Node::R(self.nodes[index + 1].clone()));
            }
            assert(spec_views::<D>(nodes@) =~= before.push(sibling));
            assert(before.push(sibling) + spec_path(self@, (index - 1) / 2) =~= before + spec_path(
                self@,
                index as int,
            ));
            let below: usize = index - 1;
            assert(below >> 1 == below / 2) by (bit_vector);
            index = below >> 1;
        }
        proof {
            assert(spec_views::<D>(nodes@) =~= spec_path(self@, start as int));
            lemma_path_len(self@, start as int);
            lemma_leaf_depth(leaves as nat, start as int);
            lemma_path_root::<D>(self@, start as int);
            lemma_path_wf::<D>(self@, start as int);
        }
        Some(Proof::new(nodes))
    }

    /// Whether `path` leads from the leaf hash `hash` to the root of this
    /// tree.
    pub fn verify(&self, path: &Proof<D>, hash: hash::Hash<D>) -> (ok: bool)
        ensures
            ok == (spec_root::<D>(path@, hash@) == self@[0]),
    {
        path.verify(self.root(), hash)
    }
}

/// The nodes of the tree over `leaves`: room for every node, the leaves in
/// the last slots, then each branch from the last to the first as the hash
/// of its two children.
fn compute_nodes<D: Digest>(digest: &mut D, leaves: &[hash::Hash<D>]) -> (nodes: Vec<
    hash::Hash<D>,
>)
    requires
        spec_is_pow2(leaves@.len()),
        2 * leaves@.len() - 1 <= usize::MAX,
    ensures
        spec_tree_wf::<D>(spec_hash_views::<D>(nodes@)),
        nodes@.len() == 2 * leaves@.len() - 1,
        forall|j: int|
            0 <= j < leaves@.len() ==> (#[trigger] nodes@[leaves@.len() - 1 + j])@ == leaves@[j]@,
{
    let count: usize = leaves.len();
    let total: usize = total_of(count);
    let mut nodes: Vec<hash::Hash<D>> = Vec::with_capacity(total);
    let mut i: usize = 0;
    while i < count - 1
        invariant
            i <= count - 1,
            nodes@.len() == i,
            forall|j: int| 0 <= j < nodes@.len() ==> (#[trigger] nodes@[j]).wf(),
        decreases count - 1 - i,
    {
        let blank = hash::Hash::<D>::default();
        proof {
            use_type_invariant(&blank);
        }
        nodes.push(blank);
        i = i + 1;
    }
    let mut j: usize = 0;
    while j < count
        invariant
            j <= count,
            count == leaves@.len(),
            nodes@.len() == count - 1 + j,
            forall|k: int| 0 <= k < nodes@.len() ==> (#[trigger] nodes@[k]).wf(),
            forall|k: int| 0 <= k < j ==> (#[trigger] nodes@[count - 1 + k])@ == leaves@[k]@,
        decreases count - j,
    {
        let leaf = leaves[j].clone();
        proof {
            use_type_invariant(&leaf);
        }
        nodes.push(leaf);
        j = j + 1;
    }
    let mut i: usize = count - 1;
    while i > 0
        invariant
            i <= count - 1,
            count == leaves@.len(),
            nodes@.len() == 2 * count - 1,
            2 * count - 1 <= usize::MAX,
            forall|k: int| 0 <= k < nodes@.len() ==> (#[trigger] nodes@[k]).wf(),
            forall|k: int| 0 <= k < count ==> (#[trigger] nodes@[count - 1 + k])@ == leaves@[k]@,
            forall|k: int|
                i <= k < count - 1 ==> #[trigger] spec_is_branch::<D>(
                    spec_hash_views::<D>(nodes@),
                    k,
                ),
        decreases i,
    {
        i = i - 1;
        let ghost old_nodes = nodes@;
        let parent = digest.hash_branch(&nodes[2 * i + 1], &nodes[2 * i + 2]);
        nodes.set(i, parent);
        proof {
            let before = spec_hash_views::<D>(old_nodes);
            let after = spec_hash_views::<D>(nodes@);
            assert forall|k: int| i <= k < count - 1 implies #[trigger] spec_is_branch::<D>(
                after,
                k,
            ) by {
                if k > i {
                    assert(spec_is_branch::<D>(before, k));
                    assert(after[k] == before[k]);
                    assert(after[2 * k + 1] == before[2 * k + 1]);
                    assert(after[2 * k + 2] == before[2 * k + 2]);
                }
            }
            assert forall|k: int| 0 <= k < count implies (#[trigger] nodes@[count - 1 + k])@
                == leaves@[k]@ by {
                assert(nodes@[count - 1 + k] == old_nodes[count - 1 + k]);
            }
        }
    }
    proof {
        let views = spec_hash_views::<D>(nodes@);
        assert forall|k: int| 0 <= k < views.len() implies (#[trigger] views[k]).len()
            == D::spec_output_size() by {
            nodes@[k].lemma_wf_len();
        }
    }
    nodes
}

} // verus!
