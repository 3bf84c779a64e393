use vstd::prelude::*;
use vstd::std_specs::cmp::PartialEqSpecImpl;
use crate::crypto::merkle_tree::digest::spec_hash_branch;
use crate::crypto::merkle_tree::digest::Digest;
use crate::crypto::merkle_tree::digest::DigestExt;
use crate::crypto::merkle_tree::hash;

verus! {

/// The tag byte of a sibling that sits on the left.
pub const TAG_L: u8 = 0x0f;

/// The tag byte of a sibling that sits on the right.
pub const TAG_R: u8 = 0xf0;

/// One step of a path from a leaf to the root: the hash of the sibling and
/// the side on which it sits.
#[derive(Debug)]
pub enum Node<D: Digest> {
    /// The sibling sits on the left.
    L(hash::Hash<D>),
    /// The sibling sits on the right.
    R(hash::Hash<D>),
}

/// What a `Node` is in contracts: the side of the sibling and the bytes of
/// its hash.
pub enum NodeView {
    /// The sibling sits on the left.
    L(Seq<u8>),
    /// The sibling sits on the right.
    R(Seq<u8>),
}

impl NodeView {
    /// The bytes of the sibling's hash.
    pub open spec fn hash(self) -> Seq<u8> {
        match self {
            NodeView::L(hash) => hash,
            NodeView::R(hash) => hash,
        }
    }

    /// The byte that stands for the side on the wire.
    pub open spec fn tag(self) -> u8 {
        match self {
            NodeView::L(_) => TAG_L,
            NodeView::R(_) => TAG_R,
        }
    }

    /// The hash of the parent, where `acc` is the hash of the node that the
    /// sibling belongs to: a left sibling comes first, a right sibling last.
    pub open spec fn combine<D: Digest>(self, acc: Seq<u8>) -> Seq<u8> {
        match self {
            NodeView::L(hash) => spec_hash_branch::<D>(hash, acc),
            NodeView::R(hash) => spec_hash_branch::<D>(acc, hash),
        }
    }

    /// The step on the wire: the tag, then the hash.
    pub open spec fn encode(self) -> Seq<u8> {
        seq![self.tag()] + self.hash()
    }

    /// Whether the hash has the length of an output of `D`.
    pub open spec fn wf<D: Digest>(self) -> bool {
        self.hash().len() == D::spec_output_size()
    }
}

impl<D: Digest> View for Node<D> {
    type V = NodeView;

    open spec fn view(&self) -> NodeView {
        match self {
            Node::L(hash) => NodeView::L(hash@),
            Node::R(hash) => NodeView::R(hash@),
        }
    }
}

impl<D: Digest> Node<D> {
    /// The node with the side that `tag` stands for, if it stands for one.
    pub fn from_tagged(tag: u8, hash: hash::Hash<D>) -> (out: Option<Self>)
        ensures
            tag == TAG_L ==> out == Some(Node::L(hash)),
            tag == TAG_R ==> out == Some(Node::R(hash)),
            tag != TAG_L && tag != TAG_R ==> out is None,
    {
        if tag == TAG_L {
            Some(Node::L(hash))
        } else if tag == TAG_R {
            Some(Node::R(hash))
        } else {
            None
        }
    }

    /// The hash of the sibling.
    pub fn get(&self) -> (hash: &hash::Hash<D>)
        ensures
            hash@ == self@.hash(),
            hash.wf(),
            match *self {
                Node::L(inner) => *hash == inner,
                Node::R(inner) => *hash == inner,
            },
    {
        let hash = match self {
            Node::L(hash) => hash,
            Node::R(hash) => hash,
        };
        proof {
            use_type_invariant(hash);
        }
        hash
    }

    /// The tag byte of the node's side.
    pub fn tag(&self) -> (tag: u8)
        ensures
            tag == self@.tag(),
    {
        match self {
            Node::L(_) => TAG_L,
            Node::R(_) => TAG_R,
        }
    }

    /// The hash of the parent of the node whose hash is `other`, computed
    /// with a fresh digest state.
    pub fn hash(&self, other: &hash::Hash<D>) -> (parent: hash::Hash<D>)
        ensures
            parent@ == self@.combine::<D>(other@),
            parent.wf(),
    {
        let mut digest = D::new();
        self.hash_with(&mut digest, other)
    }

    /// The hash of the parent of the node whose hash is `other`, computed
    /// with `digest`, which is left empty.
    pub fn hash_with(&self, digest: &mut D, other: &hash::Hash<D>) -> (parent: hash::Hash<D>)
        ensures
            parent@ == self@.combine::<D>(other@),
            parent.wf(),
            final(digest).absorbed() == Seq::<u8>::empty(),
    {
        match self {
            Node::L(hash) => digest.hash_branch(hash, other),
            Node::R(hash) => digest.hash_branch(other, hash),
        }
    }

    /// The node on the wire: its tag byte, then the bytes of its hash.
    pub fn encode_stream(&self) -> (bytes: Vec<u8>)
        ensures
            bytes@ == self@.encode(),
            bytes@.len() == 1 + D::spec_output_size(),
    {
        let hash = self.get().as_slice();
        let mut bytes: Vec<u8> = Vec::new();
        bytes.push(self.tag());
        bytes.extend_from_slice(hash);
        assert(bytes@ =~= self@.encode());
        bytes
    }
}

impl<D: Digest> PartialEq for Node<D> {
    /// Whether the two nodes sit on the same side and hold the same hash.
    fn eq(&self, other: &Self) -> (same: bool) {
        match (self, other) {
            (Node::L(lhs), Node::L(rhs)) => lhs == rhs,
            (Node::R(lhs), Node::R(rhs)) => lhs == rhs,
            _ => false,
        }
    }
}

impl<D: Digest> PartialEqSpecImpl for Node<D> {
    open spec fn obeys_eq_spec() -> bool {
        true
    }

    open spec fn eq_spec(&self, other: &Self) -> bool {
        self@ == other@
    }
}

impl<D: Digest> Eq for Node<D> {
}

impl<D: Digest> Clone for Node<D> {
    fn clone(&self) -> (copy: Self)
        ensures
            copy@ == self@,
    {
        match self {
            Node::L(hash) => Node::L(hash.clone()),
            Node::R(hash) => Node::R(hash.clone()),
        }
    }
}

} // verus!
