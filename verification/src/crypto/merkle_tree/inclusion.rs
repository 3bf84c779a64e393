use vstd::prelude::*;
use vstd::std_specs::cmp::PartialEqSpecImpl;
use vstd::slice::slice_subrange;
use crate::crypto::merkle_tree::consts::SIZE_U16;
use crate::crypto::merkle_tree::digest::Digest;
use crate::crypto::merkle_tree::hash;
use crate::crypto::merkle_tree::node::Node;
use crate::crypto::merkle_tree::node::NodeView;
use crate::crypto::merkle_tree::node::TAG_L;
use crate::crypto::merkle_tree::node::TAG_R;
use crate::utils::constant_time::ct_eq;

verus! {

/// The largest number that two bytes hold.
pub const MAX_U16: usize = 0xffff;

/// The views of a run of nodes.
pub open spec fn spec_views<D: Digest>(nodes: Seq<Node<D>>) -> Seq<NodeView> {
    nodes.map_values(|node: Node<D>| node@)
}

/// Whether every hash on the path has the length of an output of `D`.
pub open spec fn spec_nodes_wf<D: Digest>(nodes: Seq<NodeView>) -> bool {
    forall|i: int| 0 <= i < nodes.len() ==> (#[trigger] nodes[i]).wf::<D>()
}

/// The root that a path leads to from the hash `acc`: each node in turn,
/// first to last, is combined with what the nodes before it gave.
pub open spec fn spec_root<D: Digest>(nodes: Seq<NodeView>, acc: Seq<u8>) -> Seq<u8>
    decreases nodes.len(),
{
    if nodes.len() == 0 {
        acc
    } else {
        spec_root::<D>(nodes.drop_first(), nodes.first().combine::<D>(acc))
    }
}

/// The two bytes of `n`, the high byte first.
pub open spec fn spec_u16_be(n: nat) -> Seq<u8> {
    seq![(n / 256) as u8, (n % 256) as u8]
}

/// The number that two bytes stand for, the high byte first.
pub open spec fn spec_u16_from_be(hi: u8, lo: u8) -> nat {
    (hi as nat) * 256 + (lo as nat)
}

/// The nodes of a path on the wire, one after the other.
pub open spec fn spec_encode_nodes(nodes: Seq<NodeView>) -> Seq<u8>
    decreases nodes.len(),
{
    if nodes.len() == 0 {
        Seq::<u8>::empty()
    } else {
        nodes.first().encode() + spec_encode_nodes(nodes.drop_first())
    }
}

/// A path on the wire under the digest `D`: the length of a hash and the
/// number of nodes, two bytes each with the high byte first, then the nodes.
pub open spec fn spec_encode<D: Digest>(nodes: Seq<NodeView>) -> Seq<u8> {
    spec_u16_be(D::spec_output_size()) + spec_u16_be(nodes.len()) + spec_encode_nodes(nodes)
}

/// The node that a tag byte and a hash stand for, if the tag is one of the
/// two that exist.
pub open spec fn spec_node_from_tagged(tag: u8, hash: Seq<u8>) -> Option<NodeView> {
    if tag == TAG_L {
        Some(NodeView::L(hash))
    } else if tag == TAG_R {
        Some(NodeView::R(hash))
    } else {
        None
    }
}

/// Reads exactly `count` nodes with hashes of `hash_len` bytes from `bytes`;
/// nothing may be missing and nothing may be left over.
pub open spec fn spec_decode_nodes(hash_len: nat, bytes: Seq<u8>, count: nat) -> Option<
    Seq<NodeView>,
>
    decreases count,
{
    if count == 0 {
        if bytes.len() == 0 {
            Some(Seq::<NodeView>::empty())
        } else {
            None
        }
    } else if bytes.len() < 1 + hash_len {
        None
    } else {
        match spec_node_from_tagged(bytes[0], bytes.subrange(1, 1 + hash_len as int)) {
            None => None,
            Some(node) => match spec_decode_nodes(
                hash_len,
                bytes.skip(1 + hash_len as int),
                (count - 1) as nat,
            ) {
                None => None,
                Some(rest) => Some(seq![node] + rest),
            },
        }
    }
}

/// Reads a path from the wire under the digest `D`: the header must name
/// the output length of `D`, and the nodes that it counts must fill the
/// rest of the bytes exactly.
pub open spec fn spec_decode<D: Digest>(bytes: Seq<u8>) -> Option<Seq<NodeView>> {
    if bytes.len() < 4 {
        None
    } else if spec_u16_from_be(bytes[0], bytes[1]) != D::spec_output_size() {
        None
    } else {
        spec_decode_nodes(
            D::spec_output_size(),
            bytes.skip(4),
            spec_u16_from_be(bytes[2], bytes[3]),
        )
    }
}

/// `Some` of the nodes `front` followed by what `back` holds, where it
/// holds something.
pub open spec fn spec_prepend(front: Seq<NodeView>, back: Option<Seq<NodeView>>) -> Option<
    Seq<NodeView>,
> {
    match back {
        None => None,
        Some(rest) => Some(front + rest),
    }
}

/// Encoding a path with one more node appends that node's bytes.
pub proof fn lemma_encode_nodes_push(nodes: Seq<NodeView>, node: NodeView)
    ensures
        spec_encode_nodes(nodes.push(node)) == spec_encode_nodes(nodes) + node.encode(),
    decreases nodes.len(),
{
    if nodes.len() == 0 {
        let one = nodes.push(node);
        assert(one.drop_first() =~= Seq::<NodeView>::empty());
        assert(one.first() == node);
        assert(spec_encode_nodes(one.drop_first()) =~= Seq::<u8>::empty());
        assert(spec_encode_nodes(one) =~= node.encode());
        assert(spec_encode_nodes(nodes) + node.encode() =~= node.encode());
    } else {
        assert(nodes.push(node).drop_first() =~= nodes.drop_first().push(node));
        lemma_encode_nodes_push(nodes.drop_first(), node);
        assert(spec_encode_nodes(nodes.push(node)) =~= spec_encode_nodes(nodes) + node.encode());
    }
}

/// The nodes of a path take one byte and one hash each.
pub proof fn lemma_encode_nodes_len<D: Digest>(nodes: Seq<NodeView>)
    requires
        spec_nodes_wf::<D>(nodes),
    ensures
        spec_encode_nodes(nodes).len() == nodes.len() * (1 + D::spec_output_size()),
    decreases nodes.len(),
{
    if nodes.len() > 0 {
        let rest = nodes.drop_first();
        assert(nodes.first() == nodes[0]);
        assert forall|i: int| 0 <= i < rest.len() implies (#[trigger] rest[i]).wf::<D>() by {
            assert(rest[i] == nodes[i + 1]);
        }
        lemma_encode_nodes_len::<D>(rest);
        let h = D::spec_output_size();
        assert(nodes.len() * (1 + h) == rest.len() * (1 + h) + (1 + h)) by (nonlinear_arith)
            requires
                nodes.len() == rest.len() + 1,
        ;
    } else {
        assert(nodes.len() * (1 + D::spec_output_size()) == 0) by (nonlinear_arith)
            requires
                nodes.len() == 0,
        ;
    }
}

/// Reading back what was written gives the nodes that were written.
pub proof fn lemma_decode_encode_nodes<D: Digest>(nodes: Seq<NodeView>)
    requires
        spec_nodes_wf::<D>(nodes),
    ensures
        spec_decode_nodes(D::spec_output_size(), spec_encode_nodes(nodes), nodes.len()) == Some(
            nodes,
        ),
    decreases nodes.len(),
{
    let h = D::spec_output_size();
    if nodes.len() > 0 {
        let rest = nodes.drop_first();
        let first = nodes.first();
        assert(first == nodes[0]);
        assert(first.wf::<D>());
        assert forall|i: int| 0 <= i < rest.len() implies (#[trigger] rest[i]).wf::<D>() by {
            assert(rest[i] == nodes[i + 1]);
        }
        lemma_decode_encode_nodes::<D>(rest);
        let bytes = spec_encode_nodes(nodes);
        assert(bytes == first.encode() + spec_encode_nodes(rest));
        assert(bytes[0] == first.tag());
        assert(bytes.subrange(1, 1 + h as int) =~= first.hash());
        assert(bytes.skip(1 + h as int) =~= spec_encode_nodes(rest));
        assert(spec_node_from_tagged(first.tag(), first.hash()) == Some(first));
        assert(seq![first] + rest =~= nodes);
    }
}

/// What can be read from bytes is what was written to them: the bytes are
/// the encoding of the nodes read, of which there are as many as asked for,
/// each with a hash of the length asked for.
pub proof fn lemma_encode_decode_nodes<D: Digest>(bytes: Seq<u8>, count: nat)
    requires
        spec_decode_nodes(D::spec_output_size(), bytes, count) is Some,
    ensures
        ({
            let nodes = spec_decode_nodes(D::spec_output_size(), bytes, count)->Some_0;
            &&& nodes.len() == count
            &&& spec_nodes_wf::<D>(nodes)
            &&& spec_encode_nodes(nodes) == bytes
        }),
    decreases count,
{
    let h = D::spec_output_size();
    let nodes = spec_decode_nodes(h, bytes, count)->Some_0;
    if count == 0 {
        assert(bytes =~= Seq::<u8>::empty());
    } else {
        let node = spec_node_from_tagged(bytes[0], bytes.subrange(1, 1 + h as int))->Some_0;
        let tail = bytes.skip(1 + h as int);
        lemma_encode_decode_nodes::<D>(tail, (count - 1) as nat);
        let rest = spec_decode_nodes(h, tail, (count - 1) as nat)->Some_0;
        assert(nodes == seq![node] + rest);
        assert(nodes.first() == node);
        assert(nodes.drop_first() =~= rest);
        assert(node.encode() =~= bytes.subrange(0, 1 + h as int));
        assert(bytes =~= bytes.subrange(0, 1 + h as int) + tail);
        assert forall|i: int| 0 <= i < nodes.len() implies (#[trigger] nodes[i]).wf::<D>() by {
            if i > 0 {
                assert(nodes[i] == rest[i - 1]);
            }
        }
    }
}

/// The two bytes of a number below 65536 stand for that number.
pub proof fn lemma_u16_round_trip(n: nat)
    requires
        n <= MAX_U16,
    ensures
        spec_u16_be(n).len() == 2,
        spec_u16_from_be(spec_u16_be(n)[0], spec_u16_be(n)[1]) == n,
{
}

/// Decoding inverts encoding: a path that can be put on the wire is read
/// back from its bytes node for node.
pub proof fn lemma_decode_encode<D: Digest>(nodes: Seq<NodeView>)
    requires
        spec_nodes_wf::<D>(nodes),
        nodes.len() <= MAX_U16,
        D::spec_output_size() <= MAX_U16,
    ensures
        spec_decode::<D>(spec_encode::<D>(nodes)) == Some(nodes),
{
    let bytes = spec_encode::<D>(nodes);
    lemma_u16_round_trip(D::spec_output_size());
    lemma_u16_round_trip(nodes.len());
    lemma_decode_encode_nodes::<D>(nodes);
    assert(bytes.skip(4) =~= spec_encode_nodes(nodes));
    assert(bytes[0] == spec_u16_be(D::spec_output_size())[0]);
    assert(bytes[1] == spec_u16_be(D::spec_output_size())[1]);
    assert(bytes[2] == spec_u16_be(nodes.len())[0]);
    assert(bytes[3] == spec_u16_be(nodes.len())[1]);
}

/// Only encodings decode: bytes from which a path can be read are the
/// encoding of that path, which is one that can be put on the wire.
pub proof fn lemma_encode_decode<D: Digest>(bytes: Seq<u8>)
    requires
        spec_decode::<D>(bytes) is Some,
    ensures
        spec_nodes_wf::<D>(spec_decode::<D>(bytes)->Some_0),
        spec_decode::<D>(bytes)->Some_0.len() <= MAX_U16,
        D::spec_output_size() <= MAX_U16,
        spec_encode::<D>(spec_decode::<D>(bytes)->Some_0) == bytes,
{
    let count = spec_u16_from_be(bytes[2], bytes[3]);
    lemma_encode_decode_nodes::<D>(bytes.skip(4), count);
    let nodes = spec_decode::<D>(bytes)->Some_0;
    assert(spec_u16_be(D::spec_output_size()) =~= seq![bytes[0], bytes[1]]);
    assert(spec_u16_be(count) =~= seq![bytes[2], bytes[3]]);
    assert(spec_encode::<D>(nodes) =~= bytes);
}

/// The number that the first two bytes of `slice` stand for, the high byte
/// first; nothing where there are fewer than two bytes.
pub fn read_u16(slice: &[u8]) -> (out: Option<u16>)
    ensures
        slice@.len() < 2 ==> out is None,
        slice@.len() >= 2 ==> out == Some(spec_u16_from_be(slice@[0], slice@[1]) as u16),
        out matches Some(n) ==> n as nat == spec_u16_from_be(slice@[0], slice@[1]),
{
    if slice.len() < SIZE_U16 {
        return None;
    }
    let hi: u16 = slice[0] as u16;
    let lo: u16 = slice[1] as u16;
    Some(hi * 256 + lo)
}

/// An inclusion proof: the siblings on the way from a leaf to the root, the
/// one next to the leaf first.
///
/// The view of a proof is the sequence of the views of its nodes.
#[derive(Debug)]
pub struct Proof<D: Digest> {
    nodes: Vec<Node<D>>,
}

impl<D: Digest> View for Proof<D> {
    type V = Seq<NodeView>;

    closed spec fn view(&self) -> Seq<NodeView> {
        spec_views::<D>(self.nodes@)
    }
}

impl<D: Digest> PartialEq for Proof<D> {
    /// Whether the two proofs hold the same nodes in the same order.
    fn eq(&self, other: &Self) -> (same: bool) {
        if self.nodes.len() != other.nodes.len() {
            return false;
        }
        let mut i: usize = 0;
        while i < self.nodes.len()
            invariant
                i <= self.nodes@.len(),
                self.nodes@.len() == other.nodes@.len(),
                self@ == spec_views::<D>(self.nodes@),
                other@ == spec_views::<D>(other.nodes@),
                forall|k: int| 0 <= k < i ==> self@[k] == other@[k],
            decreases self.nodes@.len() - i,
        {
            if !(self.nodes[i] == other.nodes[i]) {
                assert(self@[i as int] != other@[i as int]);
                return false;
            }
            i = i + 1;
        }
        assert(self@ =~= other@);
        true
    }
}

impl<D: Digest> PartialEqSpecImpl for Proof<D> {
    open spec fn obeys_eq_spec() -> bool {
        true
    }

    open spec fn eq_spec(&self, other: &Self) -> bool {
        self@ == other@
    }
}

impl<D: Digest> Eq for Proof<D> {
}

impl<D: Digest> Clone for Proof<D> {
    fn clone(&self) -> (copy: Self)
        ensures
            copy@ == self@,
    {
        let mut nodes: Vec<Node<D>> = Vec::with_capacity(self.nodes.len());
        let mut i: usize = 0;
        while i < self.nodes.len()
            invariant
                i <= self.nodes@.len(),
                nodes@.len() == i,
                forall|k: int| 0 <= k < i ==> nodes@[k]@ == self.nodes@[k]@,
            decreases self.nodes@.len() - i,
        {
            nodes.push(self.nodes[i].clone());
            i = i + 1;
        }
        assert(spec_views::<D>(nodes@) =~= spec_views::<D>(self.nodes@));
        Proof { nodes }
    }
}

impl<D: Digest> Proof<D> {
    /// The proof that holds `nodes`, leaf to root.
    pub fn new(nodes: Vec<Node<D>>) -> (path: Self)
        ensures
            path@ == spec_views::<D>(nodes@),
    {
        Proof { nodes }
    }

    /// The nodes of the proof, leaf to root.
    pub fn nodes(&self) -> (nodes: &[Node<D>])
        ensures
            spec_views::<D>(nodes@) == self@,
    {
        self.nodes.as_slice()
    }

    /// Whether the proof leads from the leaf hash `hash` to `root`. The
    /// recomputed root and `root` are compared in constant time.
    pub fn verify(&self, root: &hash::Hash<D>, hash: hash::Hash<D>) -> (ok: bool)
        ensures
            ok == (spec_root::<D>(self@, hash@) == root@),
    {
        let candidate = self.root(hash);
        ct_eq(candidate.as_slice(), root.as_slice())
    }

    /// The root that the proof leads to from the leaf hash `other`,
    /// computed with a fresh digest state.
    pub fn root(&self, other: hash::Hash<D>) -> (root: hash::Hash<D>)
        ensures
            root@ == spec_root::<D>(self@, other@),
            root.wf(),
    {
        let mut digest = D::new();
        self.root_with(&mut digest, other)
    }

    /// The root that the proof leads to from the leaf hash `other`,
    /// computed with `digest`.
    pub fn root_with(&self, digest: &mut D, other: hash::Hash<D>) -> (root: hash::Hash<D>)
        ensures
            root@ == spec_root::<D>(self@, other@),
            root.wf(),
            self@.len() > 0 ==> final(digest).absorbed() == Seq::<u8>::empty(),
            self@.len() == 0 ==> final(digest).absorbed() == old(digest).absorbed(),
    {
        let ghost start = other@;
        proof {
            use_type_invariant(&other);
        }
        let mut acc = other;
        let mut i: usize = 0;
        assert(self@.skip(0) =~= self@);
        while i < self.nodes.len()
            invariant
                i <= self.nodes@.len(),
                self@ == spec_views::<D>(self.nodes@),
                acc.wf(),
                i > 0 ==> digest.absorbed() == Seq::<u8>::empty(),
                i == 0 ==> digest.absorbed() == old(digest).absorbed(),
                spec_root::<D>(self@, start) == spec_root::<D>(self@.skip(i as int), acc@),
            decreases self.nodes@.len() - i,
        {
            let ghost rest = self@.skip(i as int);
            assert(rest.first() == self.nodes@[i as int]@);
            assert(rest.drop_first() =~= self@.skip(i + 1));
            acc = self.nodes[i].hash_with(digest, &acc);
            i = i + 1;
        }
        acc
    }

    /// The proof on the wire: the length of a hash and the number of nodes,
    /// two bytes each with the high byte first, then for every node its tag
    /// byte and its hash.
    pub fn encode(&self) -> (output: Vec<u8>)
        requires
            D::spec_output_size() <= MAX_U16,
            self@.len() <= MAX_U16,
        ensures
            output@ == spec_encode::<D>(self@),
            output@.len() == 4 + self@.len() * (1 + D::spec_output_size()),
            spec_nodes_wf::<D>(self@),
    {
        let hsize: usize = D::output_size();
        let psize: usize = self.nodes.len();
        assert(psize * (1 + hsize) <= 0xffff * 0x10000) by (nonlinear_arith)
            requires
                psize <= 0xffff,
                hsize <= 0xffff,
        ;
        let capacity: usize = 2 * SIZE_U16 + psize * (1 + hsize);
        let mut output: Vec<u8> = Vec::with_capacity(capacity);
        output.push((hsize / 256) as u8);
        output.push((hsize % 256) as u8);
        output.push((psize / 256) as u8);
        output.push((psize % 256) as u8);
        let ghost header = spec_u16_be(hsize as nat) + spec_u16_be(psize as nat);
        assert(output@ =~= header);
        assert(self@.take(0) =~= Seq::<NodeView>::empty());
        let mut i: usize = 0;
        while i < psize
            invariant
                i <= psize,
                psize == self.nodes@.len(),
                self@ == spec_views::<D>(self.nodes@),
                output@ == header + spec_encode_nodes(self@.take(i as int)),
                spec_nodes_wf::<D>(self@.take(i as int)),
            decreases psize - i,
        {
            let node = &self.nodes[i];
            let bytes = node.encode_stream();
            proof {
                let done = self@.take(i as int);
                lemma_encode_nodes_push(done, node@);
                assert(self@.take(i + 1) =~= done.push(node@));
                assert(node@.wf::<D>()) by {
                    assert(node@.encode().len() == 1 + node@.hash().len());
                }
                assert forall|k: int| 0 <= k < i + 1 implies (#[trigger] self@.take(i + 1)[k]).wf::<
                    D,
                >() by {
                    if k < i {
                        assert(self@.take(i + 1)[k] == done[k]);
                    }
                }
            }
            output.extend_from_slice(bytes.as_slice());
            i = i + 1;
            assert(output@ =~= header + spec_encode_nodes(self@.take(i as int)));
        }
        proof {
            assert(self@.take(psize as int) =~= self@);
            lemma_encode_nodes_len::<D>(self@);
            assert(output@ =~= spec_encode::<D>(self@));
        }
        output
    }

    /// Reads a proof from the wire. There is a proof exactly where `slice`
    /// is the encoding of one under the digest `D`: a slice that is too
    /// short, names another hash length, holds an unknown tag, ends early or
    /// goes on after the last node gives nothing.
    pub fn decode(slice: &[u8]) -> (out: Option<Self>)
        ensures
            out matches Some(path) ==> spec_decode::<D>(slice@) == Some(path@),
            out is None ==> spec_decode::<D>(slice@) is None,
            out matches Some(path) ==> {
                &&& spec_nodes_wf::<D>(path@)
                &&& path@.len() <= MAX_U16
                &&& D::spec_output_size() <= MAX_U16
                &&& slice@ == spec_encode::<D>(path@)
            },
            out is None ==> forall|nodes: Seq<NodeView>|
                spec_nodes_wf::<D>(nodes) && nodes.len() <= MAX_U16 && D::spec_output_size()
                    <= MAX_U16 ==> slice@ != #[trigger] spec_encode::<D>(nodes),
    {
        let out = Self::decode_exact(slice);
        proof {
            if out is Some {
                lemma_encode_decode::<D>(slice@);
            } else {
                {
                    assert forall|nodes: Seq<NodeView>|
                        spec_nodes_wf::<D>(nodes) && nodes.len() <= MAX_U16
                            && D::spec_output_size() <= MAX_U16 implies slice@
                        != #[trigger] spec_encode::<D>(nodes) by {
                        if slice@ == spec_encode::<D>(nodes) {
                            lemma_decode_encode::<D>(nodes);
                        }
                    }
                }
            }
        }
        out
    }

    /// Reads a proof from the wire as `spec_decode` describes it.
    fn decode_exact(slice: &[u8]) -> (out: Option<Self>)
        ensures
            out matches Some(path) ==> spec_decode::<D>(slice@) == Some(path@),
            out is None ==> spec_decode::<D>(slice@) is None,
    {
        if slice.len() < 2 * SIZE_U16 {
            return None;
        }
        let hsize: usize = match read_u16(slice_subrange(slice, 0, 2)) {
            Some(n) => n as usize,
            None => { return None; },
        };
        let psize: usize = match read_u16(slice_subrange(slice, 2, 4)) {
            Some(n) => n as usize,
            None => { return None; },
        };
        if hsize != D::output_size() {
            return None;
        }
        let ghost h: nat = D::spec_output_size();
        let ghost body = slice@.skip(4);
        let mut nodes: Vec<Node<D>> = Vec::with_capacity(psize);
        let mut offset: usize = 4;
        let mut i: usize = 0;
        proof {
            let all = spec_decode_nodes(h, body, psize as nat);
            if all is Some {
                assert(spec_views::<D>(nodes@) + all->Some_0 =~= all->Some_0);
            }
        }
        while i < psize
            invariant
                i <= psize,
                4 <= offset <= slice@.len(),
                hsize == h,
                h == D::spec_output_size(),
                hsize <= MAX_U16,
                body == slice@.skip(4),
                spec_decode::<D>(slice@) == spec_decode_nodes(h, body, psize as nat),
                spec_decode_nodes(h, body, psize as nat) == spec_prepend(
                    spec_views::<D>(nodes@),
                    spec_decode_nodes(h, slice@.skip(offset as int), (psize - i) as nat),
                ),
            decreases psize - i,
        {
            let ghost rest = slice@.skip(offset as int);
            if slice.len() - offset < 1 + hsize {
                return None;
            }
            let ntag: u8 = slice[offset];
            let bytes = slice_subrange(slice, offset + 1, offset + 1 + hsize);
            assert(rest[0] == ntag);
            assert(rest.subrange(1, 1 + h as int) =~= bytes@);
            assert(rest.skip(1 + h as int) =~= slice@.skip(offset + 1 + hsize));
            let hash = match hash::Hash::<D>::from_slice(bytes) {
                Some(hash) => hash,
                None => { return None; },
            };
            let node = match Node::from_tagged(ntag, hash) {
                Some(node) => node,
                None => { return None; },
            };
            assert(spec_node_from_tagged(ntag, bytes@) == Some(node@));
            let ghost before = spec_views::<D>(nodes@);
            nodes.push(node);
            offset = offset + 1 + hsize;
            i = i + 1;
            proof {
                let after = spec_views::<D>(nodes@);
                assert(after =~= before.push(node@));
                let tail = spec_decode_nodes(h, slice@.skip(offset as int), (psize - i) as nat);
                if tail is Some {
                    assert(before + (seq![node@] + tail->Some_0) =~= after + tail->Some_0);
                }
            }
        }
        if offset != slice.len() {
            return None;
        }
        proof {
            assert(slice@.skip(offset as int) =~= Seq::<u8>::empty());
            assert(spec_views::<D>(nodes@) + Seq::<NodeView>::empty() =~= spec_views::<D>(nodes@));
        }
        Some(Proof::new(nodes))
    }
}

} // verus!
