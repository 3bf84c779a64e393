use vstd::prelude::*;
use crate::crypto::merkle_tree::digest::spec_hash_branch;
use crate::crypto::merkle_tree::digest::Digest;
use crate::crypto::merkle_tree::inclusion::spec_root;
use crate::crypto::merkle_tree::math::spec_is_pow2;
use crate::crypto::merkle_tree::math::spec_leaves;
use crate::crypto::merkle_tree::math::spec_log2;
use crate::crypto::merkle_tree::merkle::lemma_leaf_depth;
use crate::crypto::merkle_tree::merkle::lemma_path_len;
use crate::crypto::merkle_tree::merkle::lemma_path_root;
use crate::crypto::merkle_tree::merkle::spec_is_branch;
use crate::crypto::merkle_tree::merkle::spec_path;
use crate::crypto::merkle_tree::merkle::spec_tree_wf;
use crate::crypto::merkle_tree::node::NodeView;
use crate::utils::hex::lemma_decode_encode_hex;
use crate::utils::hex::spec_decode_hex;
use crate::utils::hex::spec_encode_hex;

verus! {

/// The proof of any leaf of any tree leads from that leaf to the root of
/// the tree, and has one node for every step of the tree's height.
pub proof fn lemma_proof_of_leaf<D: Digest>(nodes: Seq<Seq<u8>>, local: int)
    requires
        spec_tree_wf::<D>(nodes),
        0 <= local < spec_leaves(nodes.len()),
    ensures
        ({
            let leaves = spec_leaves(nodes.len());
            let path = spec_path(nodes, leaves - 1 + local);
            &&& spec_root::<D>(path, nodes[leaves - 1 + local]) == nodes[0]
            &&& path.len() == spec_log2(leaves)
        }),
{
    let leaves = spec_leaves(nodes.len());
    lemma_path_root::<D>(nodes, leaves - 1 + local);
    lemma_path_len(nodes, leaves - 1 + local);
    lemma_leaf_depth(leaves, leaves - 1 + local);
}

/// The root over a power of two of leaf hashes: the one hash where there is
/// one, else the branch hash of the root over the first half and the root
/// over the second half.
pub open spec fn spec_merkle_root<D: Digest>(leaves: Seq<Seq<u8>>) -> Seq<u8>
    decreases leaves.len(),
{
    if leaves.len() <= 1 {
        leaves[0]
    } else {
        let half = (leaves.len() / 2) as int;
        spec_hash_branch::<D>(
            spec_merkle_root::<D>(leaves.subrange(0, half)),
            spec_merkle_root::<D>(leaves.subrange(half, leaves.len() as int)),
        )
    }
}

/// Hashing the items of a row in pairs does not change the root over the
/// row.
pub proof fn lemma_pairs_keep_root<D: Digest>(row: Seq<Seq<u8>>, above: Seq<Seq<u8>>)
    requires
        spec_is_pow2(above.len()),
        row.len() == 2 * above.len(),
        forall|j: int|
            0 <= j < above.len() ==> #[trigger] above[j] == spec_hash_branch::<D>(
                row[2 * j],
                row[2 * j + 1],
            ),
    ensures
        spec_merkle_root::<D>(row) == spec_merkle_root::<D>(above),
    decreases above.len(),
{
    let m = above.len() as int;
    if m == 1 {
        assert(above[0] == spec_hash_branch::<D>(row[0], row[1]));
        assert(row.subrange(0, 1)[0] == row[0]);
        assert(row.subrange(1, 2)[0] == row[1]);
        assert(spec_merkle_root::<D>(row.subrange(0, 1)) == row[0]);
        assert(spec_merkle_root::<D>(row.subrange(1, 2)) == row[1]);
        assert(spec_merkle_root::<D>(row) == spec_hash_branch::<D>(row[0], row[1]));
        assert(spec_merkle_root::<D>(above) == above[0]);
    } else {
        let h = m / 2;
        let row1 = row.subrange(0, m);
        let row2 = row.subrange(m, 2 * m);
        let above1 = above.subrange(0, h);
        let above2 = above.subrange(h, m);
        assert forall|j: int| 0 <= j < above1.len() implies #[trigger] above1[j]
            == spec_hash_branch::<D>(row1[2 * j], row1[2 * j + 1]) by {
            assert(above1[j] == above[j]);
        }
        assert forall|j: int| 0 <= j < above2.len() implies #[trigger] above2[j]
            == spec_hash_branch::<D>(row2[2 * j], row2[2 * j + 1]) by {
            assert(above2[j] == above[h + j]);
            assert(row2[2 * j] == row[2 * (h + j)]);
            assert(row2[2 * j + 1] == row[2 * (h + j) + 1]);
        }
        assert(m == 2 * h);
        lemma_pairs_keep_root::<D>(row1, above1);
        lemma_pairs_keep_root::<D>(row2, above2);
        assert(spec_merkle_root::<D>(row) == spec_hash_branch::<D>(
            spec_merkle_root::<D>(row1),
            spec_merkle_root::<D>(row2),
        ));
        assert(spec_merkle_root::<D>(above) == spec_hash_branch::<D>(
            spec_merkle_root::<D>(above1),
            spec_merkle_root::<D>(above2),
        ));
    }
}

/// The root over any full row of a tree is the root of the tree.
pub proof fn lemma_row_root<D: Digest>(nodes: Seq<Seq<u8>>, width: nat)
    requires
        spec_tree_wf::<D>(nodes),
        spec_is_pow2(width),
        width <= spec_leaves(nodes.len()),
    ensures
        spec_merkle_root::<D>(nodes.subrange(width - 1, 2 * width - 1)) == nodes[0],
    decreases width,
{
    let row = nodes.subrange(width - 1, 2 * width - 1);
    if width >= 2 {
        let half = (width / 2) as nat;
        let above = nodes.subrange(half - 1, 2 * half - 1);
        lemma_row_root::<D>(nodes, half);
        assert forall|j: int| 0 <= j < above.len() implies #[trigger] above[j]
            == spec_hash_branch::<D>(row[2 * j], row[2 * j + 1]) by {
            let i = half - 1 + j;
            assert(spec_is_branch::<D>(nodes, i));
            assert(above[j] == nodes[i]);
            assert(row[2 * j] == nodes[2 * i + 1]);
            assert(row[2 * j + 1] == nodes[2 * i + 2]);
        }
        lemma_pairs_keep_root::<D>(row, above);
    } else {
        assert(row[0] == nodes[0]);
    }
}

/// The root of a tree is the root over its leaves: the hash of the hashes
/// of the two halves, and so on down to the leaves.
pub proof fn lemma_tree_root<D: Digest>(nodes: Seq<Seq<u8>>)
    requires
        spec_tree_wf::<D>(nodes),
    ensures
        nodes[0] == spec_merkle_root::<D>(
            nodes.subrange(nodes.len() - spec_leaves(nodes.len()), nodes.len() as int),
        ),
{
    lemma_row_root::<D>(nodes, spec_leaves(nodes.len()));
}

/// A hash read back from its hexadecimal text is the hash that was written.
pub proof fn lemma_hash_hex_round_trip(hash: Seq<u8>)
    ensures
        spec_decode_hex(spec_encode_hex(hash)) == Some(hash),
{
    lemma_decode_encode_hex(hash);
}

/// The message that is hashed for a branch: a one byte, the left hash, the
/// right hash.
pub open spec fn spec_branch_message(lhs: Seq<u8>, rhs: Seq<u8>) -> Seq<u8> {
    seq![0x01u8] + lhs + rhs
}

/// The message that is hashed when `node` is combined with `acc`.
pub open spec fn spec_message(node: NodeView, acc: Seq<u8>) -> Seq<u8> {
    match node {
        NodeView::L(hash) => spec_branch_message(hash, acc),
        NodeView::R(hash) => spec_branch_message(acc, hash),
    }
}

/// The node `node` with the hash `hash` in place of its own.
pub open spec fn spec_with_hash(node: NodeView, hash: Seq<u8>) -> NodeView {
    match node {
        NodeView::L(_) => NodeView::L(hash),
        NodeView::R(_) => NodeView::R(hash),
    }
}

/// Whether the digest tells the two paths apart at every step from `at` on:
/// where the messages that are hashed at a step differ, so do their
/// hashes.
pub open spec fn spec_collision_free<D: Digest>(
    nodes: Seq<NodeView>,
    other: Seq<NodeView>,
    leaf: Seq<u8>,
    at: int,
) -> bool {
    forall|j: int|
        #![trigger nodes[j]]
        at <= j < nodes.len() ==> {
            let message = spec_message(nodes[j], spec_root::<D>(nodes.take(j), leaf));
            let changed = spec_message(other[j], spec_root::<D>(other.take(j), leaf));
            message != changed ==> D::spec_digest(message) != D::spec_digest(changed)
        }
}

/// The root of a path with one more node at its end is that node combined
/// with the root of the path before it.
pub proof fn lemma_root_push<D: Digest>(nodes: Seq<NodeView>, node: NodeView, acc: Seq<u8>)
    ensures
        spec_root::<D>(nodes.push(node), acc) == node.combine::<D>(spec_root::<D>(nodes, acc)),
    decreases nodes.len(),
{
    if nodes.len() == 0 {
        let one = nodes.push(node);
        assert(one.first() == node);
        assert(one.drop_first() =~= Seq::<NodeView>::empty());
        assert(spec_root::<D>(one.drop_first(), node.combine::<D>(acc)) == node.combine::<D>(acc));
    } else {
        assert(nodes.push(node).drop_first() =~= nodes.drop_first().push(node));
        assert(nodes.push(node).first() == nodes.first());
        lemma_root_push::<D>(nodes.drop_first(), node, nodes.first().combine::<D>(acc));
    }
}

/// Messages with different hashes in the same place differ.
pub proof fn lemma_messages_differ(lhs: Seq<u8>, rhs: Seq<u8>, other_lhs: Seq<u8>, other_rhs: Seq<
    u8,
>)
    requires
        (lhs != other_lhs && rhs == other_rhs) || (lhs == other_lhs && rhs != other_rhs),
    ensures
        spec_branch_message(lhs, rhs) != spec_branch_message(other_lhs, other_rhs),
{
    let a = spec_branch_message(lhs, rhs);
    let b = spec_branch_message(other_lhs, other_rhs);
    if a == b {
        assert(a.len() == b.len());
        if lhs != other_lhs {
            assert(lhs.len() == other_lhs.len());
            assert forall|i: int| 0 <= i < lhs.len() implies lhs[i] == other_lhs[i] by {
                assert(a[1 + i] == lhs[i]);
                assert(b[1 + i] == other_lhs[i]);
            }
            assert(lhs =~= other_lhs);
        } else {
            assert(rhs.len() == other_rhs.len());
            assert forall|i: int| 0 <= i < rhs.len() implies rhs[i] == other_rhs[i] by {
                assert(a[1 + lhs.len() + i] == rhs[i]);
                assert(b[1 + lhs.len() + i] == other_rhs[i]);
            }
            assert(rhs =~= other_rhs);
        }
    }
}

/// A proof in which the hash of one node was changed does not lead to the
/// root that it led to before, as long as the digest tells apart what is
/// hashed on the two ways from the changed node up.
///
/// No digest tells all messages apart, so the condition cannot be dropped:
/// a change that runs into a collision of the digest goes unnoticed.
pub proof fn lemma_tampered_proof<D: Digest>(
    nodes: Seq<NodeView>,
    leaf: Seq<u8>,
    at: int,
    hash: Seq<u8>,
)
    requires
        0 <= at < nodes.len(),
        hash != nodes[at].hash(),
        spec_collision_free::<D>(
            nodes,
            nodes.update(at, spec_with_hash(nodes[at], hash)),
            leaf,
            at,
        ),
    ensures
        spec_root::<D>(nodes.update(at, spec_with_hash(nodes[at], hash)), leaf) != spec_root::<D>(
            nodes,
            leaf,
        ),
{
    let other = nodes.update(at, spec_with_hash(nodes[at], hash));
    lemma_tampered_prefix::<D>(nodes, other, leaf, at, hash, nodes.len() as int);
    assert(nodes.take(nodes.len() as int) =~= nodes);
    assert(other.take(nodes.len() as int) =~= other);
}

/// The two ways of `lemma_tampered_proof` have parted after the changed
/// node and stay apart.
proof fn lemma_tampered_prefix<D: Digest>(
    nodes: Seq<NodeView>,
    other: Seq<NodeView>,
    leaf: Seq<u8>,
    at: int,
    hash: Seq<u8>,
    upto: int,
)
    requires
        0 <= at < upto <= nodes.len(),
        hash != nodes[at].hash(),
        other == nodes.update(at, spec_with_hash(nodes[at], hash)),
        spec_collision_free::<D>(nodes, other, leaf, at),
    ensures
        spec_root::<D>(other.take(upto), leaf) != spec_root::<D>(nodes.take(upto), leaf),
    decreases upto,
{
    let j = upto - 1;
    let before = spec_root::<D>(nodes.take(j), leaf);
    let changed = spec_root::<D>(other.take(j), leaf);
    assert(nodes.take(upto) =~= nodes.take(j).push(nodes[j]));
    assert(other.take(upto) =~= other.take(j).push(other[j]));
    lemma_root_push::<D>(nodes.take(j), nodes[j], leaf);
    lemma_root_push::<D>(other.take(j), other[j], leaf);
    let trigger = nodes[j];
    if j == at {
        assert(other.take(j) =~= nodes.take(j));
        match nodes[j] {
            NodeView::L(own) => lemma_messages_differ(own, before, hash, changed),
            NodeView::R(own) => lemma_messages_differ(before, own, changed, hash),
        }
    } else {
        lemma_tampered_prefix::<D>(nodes, other, leaf, at, hash, j);
        assert(other[j] == nodes[j]);
        match nodes[j] {
            NodeView::L(own) => lemma_messages_differ(own, before, own, changed),
            NodeView::R(own) => lemma_messages_differ(before, own, changed, own),
        }
    }
    assert(spec_message(nodes[j], before) != spec_message(other[j], changed));
    assert(nodes[j].combine::<D>(before) == D::spec_digest(spec_message(nodes[j], before)));
    assert(other[j].combine::<D>(changed) == D::spec_digest(spec_message(other[j], changed)));
}

} // verus!
