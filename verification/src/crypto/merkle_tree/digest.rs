use vstd::prelude::*;
use crate::crypto::merkle_tree::consts::PREFIX_B;
use crate::crypto::merkle_tree::consts::PREFIX_L;
use crate::crypto::merkle_tree::hash;

verus! {

/// A cryptographic hash function with a fixed output length, fed in pieces.
///
/// A value of the type is a running hash state. Its model is the sequence of
/// bytes absorbed since it was created or last reset; the hash function
/// itself is the spec function `spec_digest`.
pub trait Digest: Sized {
    /// The bytes absorbed by this state so far.
    spec fn absorbed(&self) -> Seq<u8>;

    /// The hash function as a mathematical function on messages.
    spec fn spec_digest(message: Seq<u8>) -> Seq<u8>;

    /// The length in bytes of every output.
    spec fn spec_output_size() -> nat;

    /// The longest message, in bytes, that a state can absorb.
    spec fn spec_capacity() -> nat;

    /// Two outputs behind a one-byte prefix always fit into one message.
    proof fn lemma_branch_fits()
        ensures
            1 + 2 * Self::spec_output_size() <= Self::spec_capacity(),
    ;

    /// A state that has absorbed nothing.
    fn new() -> (digest: Self)
        ensures
            digest.absorbed() == Seq::<u8>::empty(),
    ;

    /// Absorbs `data` after what was absorbed before.
    fn update(&mut self, data: &[u8])
        requires
            old(self).absorbed().len() + data@.len() <= Self::spec_capacity(),
        ensures
            final(self).absorbed() == old(self).absorbed() + data@,
    ;

    /// Forgets what was absorbed.
    fn reset(&mut self)
        ensures
            final(self).absorbed() == Seq::<u8>::empty(),
    ;

    /// Returns the hash of what was absorbed and leaves the state empty.
    fn finalize_reset(&mut self) -> (output: Vec<u8>)
        ensures
            output@ == Self::spec_digest(old(self).absorbed()),
            output@.len() == Self::spec_output_size(),
            final(self).absorbed() == Seq::<u8>::empty(),
    ;

    /// Returns the hash of what was absorbed and gives the state up.
    fn finalize(self) -> (output: Vec<u8>)
        ensures
            output@ == Self::spec_digest(self.absorbed()),
            output@.len() == Self::spec_output_size(),
    {
        let mut state = self;
        state.finalize_reset()
    }

    /// The length in bytes of every output.
    fn output_size() -> (size: usize)
        ensures
            size == Self::spec_output_size(),
    ;

    /// Whether a state can absorb a message of `len` bytes.
    fn accepts(len: usize) -> (yes: bool)
        ensures
            yes == (len <= Self::spec_capacity()),
    ;
}

/// The hash of a leaf that holds `data`: the digest of a zero byte followed
/// by the data.
pub open spec fn spec_hash_leaf<D: Digest>(data: Seq<u8>) -> Seq<u8> {
    D::spec_digest(seq![0x00u8] + data)
}

/// The hash of a branch over the hashes `lhs` and `rhs` of its children: the
/// digest of a one byte followed by the left hash and then the right hash.
pub open spec fn spec_hash_branch<D: Digest>(lhs: Seq<u8>, rhs: Seq<u8>) -> Seq<u8> {
    D::spec_digest(seq![0x01u8] + lhs + rhs)
}

/// Leaf and branch hashing on top of any digest. The one-byte prefixes keep a
/// branch from ever being read as a leaf.
pub trait DigestExt: Digest {
    /// The leaf hash of `data`. What the state had absorbed is dropped, and
    /// the state is left empty.
    fn hash_data(&mut self, data: &[u8]) -> (hash: hash::Hash<Self>)
        requires
            1 + data@.len() <= Self::spec_capacity(),
        ensures
            hash@ == spec_hash_leaf::<Self>(data@),
            hash.wf(),
            final(self).absorbed() == Seq::<u8>::empty(),
    {
        self.reset();
        self.update(PREFIX_L.as_slice());
        self.update(data);
        let output = self.finalize_reset();
        assert(PREFIX_L@ + data@ =~= seq![0x00u8] + data@);
        hash::Hash::from_output(output)
    }

    /// The branch hash over `lhs` and `rhs`. What the state had absorbed is
    /// dropped, and the state is left empty.
    fn hash_branch(&mut self, lhs: &hash::Hash<Self>, rhs: &hash::Hash<Self>) -> (hash: hash::Hash<Self>)
        ensures
            hash@ == spec_hash_branch::<Self>(lhs@, rhs@),
            hash.wf(),
            final(self).absorbed() == Seq::<u8>::empty(),
    {
        proof {
            Self::lemma_branch_fits();
        }
        let left = lhs.as_slice();
        let right = rhs.as_slice();
        self.reset();
        self.update(PREFIX_B.as_slice());
        self.update(left);
        self.update(right);
        let output = self.finalize_reset();
        assert(PREFIX_B@ + lhs@ + rhs@ =~= seq![0x01u8] + lhs@ + rhs@);
        hash::Hash::from_output(output)
    }
}

impl<D: Digest> DigestExt for D {
}

} // verus!
