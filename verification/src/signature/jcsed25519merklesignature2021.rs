use vstd::prelude::*;
use vstd::string::is_ascii_spec_bytes;
use vstd::string::StringSliceAdditionalSpecFns;
use crate::crypto::merkle_tree::digest::spec_hash_leaf;
use crate::crypto::merkle_tree::digest::Digest;
use crate::crypto::merkle_tree::digest::DigestExt;
use crate::crypto::merkle_tree::hash;
use crate::crypto::merkle_tree::inclusion::spec_decode;
use crate::crypto::merkle_tree::inclusion::spec_encode;
use crate::crypto::merkle_tree::inclusion::spec_root;
use crate::crypto::merkle_tree::inclusion::Proof;
use crate::crypto::merkle_tree::inclusion::MAX_U16;
use crate::crypto::merkle_tree::math::lemma_log2_usize;
use crate::crypto::merkle_tree::merkle::spec_path;
use crate::crypto::merkle_tree::merkle::MTree;
use crate::error::CoreError;
use crate::utils::base_encoding::base58_bytes;
use crate::utils::base_encoding::base58_text;
use crate::utils::base_encoding::decode_b58;
use crate::utils::base_encoding::encode_b58;

verus! {

/// The name under which the suite announces itself.
pub const SIGNATURE_NAME: &'static str = "Ed25519MerkleSignature2021";

/// Why signing or verifying failed: for a reason of this suite, or for one
/// of the suite underneath, whose error is handed on as it came.
#[derive(Debug)]
pub enum Failure<E> {
    /// The Merkle part failed.
    Suite(CoreError),
    /// The suite underneath failed.
    Base(E),
}

/// What a suite was made for: to sign with one leaf of a tree, or to verify
/// against one public key.
#[derive(Clone, Copy, Debug)]
pub enum MerkleState<'a, D: Digest> {
    /// Signs with the key at leaf `node` of `tree`.
    Signer { node: usize, tree: &'a MTree<D> },
    /// Verifies signatures made with `key`.
    Verifier { key: &'a [u8] },
}

/// The Merkle signature suite: a signature of the suite underneath, made
/// with one key of a collection, together with the proof that this key is a
/// leaf of the collection's tree.
#[derive(Clone, Copy, Debug)]
pub struct JcsEd25519MerkleSignature2021<'a, D: Digest> {
    state: MerkleState<'a, D>,
}

/// The place of the first `.` in `text`, or the length of `text` where it
/// holds none.
pub open spec fn spec_split_point(text: Seq<char>) -> int
    decreases text.len(),
{
    if text.len() == 0 || text[0] == '.' {
        0
    } else {
        1 + spec_split_point(text.drop_first())
    }
}

/// The first `.` stands where `spec_split_point` says: nowhere before it,
/// and there, unless the text holds none.
pub proof fn lemma_split_point(text: Seq<char>)
    ensures
        0 <= spec_split_point(text) <= text.len(),
        forall|i: int| 0 <= i < spec_split_point(text) ==> text[i] != '.',
        spec_split_point(text) < text.len() ==> text[spec_split_point(text)] == '.',
    decreases text.len(),
{
    if text.len() > 0 && text[0] != '.' {
        let rest = text.drop_first();
        lemma_split_point(rest);
        assert forall|i: int| 0 <= i < spec_split_point(text) implies text[i] != '.' by {
            if i > 0 {
                assert(text[i] == rest[i - 1]);
            }
        }
        if spec_split_point(text) < text.len() {
            assert(text[spec_split_point(text)] == rest[spec_split_point(rest)]);
        }
    }
}

/// The text of a signature: the proof, a `.`, and the signature of the
/// suite underneath.
pub open spec fn spec_signature(token: Seq<char>, inner: Seq<char>) -> Seq<char> {
    token + seq!['.'] + inner
}

/// The proof part of the signature that a signer makes with leaf `node` of
/// a tree with the nodes `nodes`: the path from that leaf on the wire,
/// written in base58.
pub open spec fn spec_token<D: Digest>(nodes: Seq<Seq<u8>>, node: int) -> Seq<char> {
    base58_text(spec_encode::<D>(spec_path(nodes, (nodes.len() + 1) / 2 - 1 + node)))
}

/// What the Merkle part of verifying comes to, for a verifier of `key` that
/// is handed `signature` and the root `root`: the signature is split at its
/// first `.`; what stands before it must be base58 for the bytes of a
/// proof; the root must have the length of a hash; and the proof must lead
/// from the leaf hash of the key to the root. Then what stands after the
/// `.` is left for the suite underneath.
pub open spec fn spec_check<D: Digest>(signature: Seq<char>, root: Seq<u8>, key: Seq<u8>) -> Result<
    Seq<char>,
    CoreError,
> {
    let at = spec_split_point(signature);
    if at >= signature.len() {
        Err(CoreError::InvalidSignatureFormat)
    } else {
        match base58_bytes(signature.take(at)) {
            None => Err(CoreError::InvalidProof),
            Some(bytes) => match spec_decode::<D>(bytes) {
                None => Err(CoreError::InvalidProof),
                Some(nodes) => if root.len() != D::spec_output_size() {
                    Err(CoreError::InvalidRoot)
                } else if spec_root::<D>(nodes, spec_hash_leaf::<D>(key)) != root {
                    Err(CoreError::InvalidProof)
                } else {
                    Ok(signature.skip(at + 1))
                },
            },
        }
    }
}

/// The place of the first `.` in `text`, counted in characters, or the
/// number of characters of `text` where it holds none.
pub fn split_point(text: &str) -> (at: usize)
    ensures
        at == spec_split_point(text@),
        at <= text@.len(),
{
    let n = text.unicode_len();
    let ascii = text.is_ascii();
    proof {
        lemma_split_point(text@);
        if ascii {
            is_ascii_spec_bytes(text);
        }
        assert(text@.skip(0) =~= text@);
    }
    let mut i: usize = 0;
    while i < n
        invariant
            i <= n,
            n == text@.len(),
            ascii == text.is_ascii(),
            ascii ==> text.spec_bytes() =~= Seq::new(text@.len(), |k: int| text@.index(k) as u8),
            spec_split_point(text@) == i + spec_split_point(text@.skip(i as int)),
        decreases n - i,
    {
        let ghost rest = text@.skip(i as int);
        assert(rest[0] == text@[i as int]);
        assert(rest.drop_first() =~= text@.skip(i + 1));
        let dot = if ascii {
            let b = text.as_bytes()[i];
            assert(b == text@[i as int] as u8);
            assert('\0' <= text@[i as int] <= '\u{7f}');
            b == 0x2e
        } else {
            text.get_char(i) == '.'
        };
        if dot {
            return i;
        }
        i = i + 1;
    }
    proof {
        assert(text@.skip(i as int) =~= Seq::<char>::empty());
    }
    i
}

/// What a signer hands back once the suite underneath has signed: the
/// proof, a `.`, and the signature of that suite; its error where it gave
/// one.
pub fn compose<E>(token: String, inner: Result<String, E>) -> (out: Result<String, Failure<E>>)
    ensures
        match inner {
            Ok(signature) => out matches Ok(text) && text@ == spec_signature(token@, signature@),
            Err(e) => out matches Err(Failure::Base(f)) && f == e,
        },
{
    match inner {
        Ok(signature) => {
            let mut text = token;
            text.append(".");
            proof {
                reveal_strlit(".");
                assert("."@ =~= seq!['.']);
            }
            text.append(signature.as_str());
            Ok(text)
        },
        Err(e) => Err(Failure::Base(e)),
    }
}

/// What a verifier hands back once the suite underneath has checked the
/// signature that the proof came with: its verdict.
pub fn conclude<E>(inner: Result<(), E>) -> (out: Result<(), Failure<E>>)
    ensures
        match inner {
            Ok(_) => out is Ok,
            Err(e) => out matches Err(Failure::Base(f)) && f == e,
        },
{
    match inner {
        Ok(_) => Ok(()),
        Err(e) => Err(Failure::Base(e)),
    }
}

impl<'a, D: Digest> JcsEd25519MerkleSignature2021<'a, D> {
    /// The state that the suite was made with.
    pub closed spec fn spec_state(&self) -> MerkleState<'a, D> {
        self.state
    }

    /// A suite that signs with the key at leaf `node` of `tree`.
    pub fn new_signer(tree: &'a MTree<D>, node: usize) -> (suite: Self)
        ensures
            suite.spec_state() matches MerkleState::Signer { node: n, tree: t } && n == node && t == tree,
    {
        JcsEd25519MerkleSignature2021 { state: MerkleState::Signer { node, tree } }
    }

    /// A suite that verifies signatures made with `key`.
    pub fn new_verifier(key: &'a [u8]) -> (suite: Self)
        ensures
            suite.spec_state() matches MerkleState::Verifier { key: k } && k == key,
    {
        JcsEd25519MerkleSignature2021 { state: MerkleState::Verifier { key } }
    }

    /// The name of the suite.
    pub fn name(&self) -> (name: &'static str)
        ensures
            name@ == SIGNATURE_NAME@,
    {
        SIGNATURE_NAME
    }

    /// The proof part of a signature: the inclusion proof of the signer's
    /// leaf, on the wire and in base58. A verifier has none, and neither has
    /// a signer whose leaf the tree does not hold.
    pub fn proof_token(&self) -> (out: Result<String, CoreError>)
        requires
            D::spec_output_size() <= MAX_U16,
        ensures
            match self.spec_state() {
                MerkleState::Verifier { .. } => out == Err::<String, CoreError>(
                    CoreError::InvalidState,
                ),
                MerkleState::Signer { node, tree } => if node < tree.spec_leaves() {
                    out matches Ok(token) && token@ == spec_token::<D>(tree@, node as int)
                } else {
                    out == Err::<String, CoreError>(CoreError::InvalidNode)
                },
            },
    {
        match self.state {
            MerkleState::Signer { node, tree } => {
                let path = match tree.inclusion_proof(node) {
                    Some(path) => path,
                    None => { return Err(CoreError::InvalidNode); },
                };
                let leaves = tree.leaves();
                proof {
                    lemma_log2_usize(leaves as nat);
                }
                let bytes = path.encode();
                assert(bytes@.len() <= usize::MAX / 16) by (nonlinear_arith)
                    requires
                        bytes@.len() == 4 + path@.len() * (1 + D::spec_output_size()),
                        path@.len() <= 64,
                        D::spec_output_size() <= 0xffff,
                        usize::MAX >= 0xffff_ffff,
                ;
                Ok(encode_b58(bytes.as_slice()))
            },
            MerkleState::Verifier { .. } => Err(CoreError::InvalidState),
        }
    }

    /// Signs: makes the proof part, has the suite underneath sign, and
    /// joins the two. `base` is the suite underneath at work on the message
    /// and the secret key; it is not called where there is no proof to go
    /// with its signature.
    pub fn sign<F, E>(&self, base: F) -> (out: Result<String, Failure<E>>) where
        F: FnOnce() -> Result<String, E>,

        requires
            D::spec_output_size() <= MAX_U16,
            call_requires(base, ()),
        ensures
            match self.spec_state() {
                MerkleState::Verifier { .. } => out matches Err(Failure::Suite(e)) && e
                    == CoreError::InvalidState,
                MerkleState::Signer { node, tree } => if node < tree.spec_leaves() {
                    exists|inner: Result<String, E>|
                        {
                            &&& #[trigger] call_ensures(base, (), inner)
                            &&& match inner {
                                Ok(signature) => out matches Ok(text) && text@ == spec_signature(
                                    spec_token::<D>(tree@, node as int),
                                    signature@,
                                ),
                                Err(e) => out matches Err(Failure::Base(f)) && f == e,
                            }
                        }
                } else {
                    out matches Err(Failure::Suite(e)) && e == CoreError::InvalidNode
                },
            },
    {
        let token = match self.proof_token() {
            Ok(token) => token,
            Err(e) => { return Err(Failure::Suite(e)); },
        };
        let inner = base();
        compose(token, inner)
    }

    /// The Merkle part of verifying `signature` against the root `public`
    /// of the tree: what is left of the signature for the suite underneath
    /// to check, where the proof in it leads from the verifier's key to the
    /// root.
    ///
    /// `public` is the published root of the tree, not a key: the key is
    /// the one that the verifier was made with.
    pub fn check<'b>(&self, signature: &'b str, public: &[u8]) -> (out: Result<&'b str, CoreError>)
        requires
            self.spec_state() matches MerkleState::Verifier { key } ==> 1 + key@.len()
                <= D::spec_capacity(),
        ensures
            match self.spec_state() {
                MerkleState::Signer { .. } => out == Err::<&str, CoreError>(
                    CoreError::InvalidState,
                ),
                MerkleState::Verifier { key } => match spec_check::<D>(
                    signature@,
                    public@,
                    key@,
                ) {
                    Ok(inner) => out matches Ok(rest) && rest@ == inner,
                    Err(e) => out == Err::<&str, CoreError>(e),
                },
            },
    {
        match self.state {
            MerkleState::Signer { .. } => Err(CoreError::InvalidState),
            MerkleState::Verifier { key } => {
                let n = signature.unicode_len();
                let at = split_point(signature);
                if at >= n {
                    return Err(CoreError::InvalidSignatureFormat);
                }
                let token = signature.substring_char(0, at);
                let inner = signature.substring_char(at + 1, n);
                assert(token@ =~= signature@.take(at as int));
                assert(inner@ =~= signature@.skip(at + 1));
                let bytes = match decode_b58(token) {
                    Ok(bytes) => bytes,
                    Err(_) => { return Err(CoreError::InvalidProof); },
                };
                let path = match Proof::<D>::decode(bytes.as_slice()) {
                    Some(path) => path,
                    None => { return Err(CoreError::InvalidProof); },
                };
                let root = match hash::Hash::<D>::from_slice(public) {
                    Some(root) => root,
                    None => { return Err(CoreError::InvalidRoot); },
                };
                let mut digest = D::new();
                let target = digest.hash_data(key);
                if !path.verify(&root, target) {
                    return Err(CoreError::InvalidProof);
                }
                Ok(inner)
            },
        }
    }

    /// Verifies: checks the proof in `signature` against the root `public`
    /// and has the suite underneath check the rest of the signature against
    /// the verifier's key. `base` is the suite underneath at work on the
    /// message; it is handed the rest of the signature and the key, and it
    /// is not called where the Merkle part fails.
    pub fn verify<F, E>(&self, signature: &str, public: &[u8], base: F) -> (out: Result<
        (),
        Failure<E>,
    >) where F: FnOnce(&str, &[u8]) -> Result<(), E>
        requires
            self.spec_state() matches MerkleState::Verifier { key } ==> 1 + key@.len()
                <= D::spec_capacity(),
            forall|rest: &str, key: &[u8]| call_requires(base, (rest, key)),
        ensures
            match self.spec_state() {
                MerkleState::Signer { .. } => out matches Err(Failure::Suite(e)) && e
                    == CoreError::InvalidState,
                MerkleState::Verifier { key } => match spec_check::<D>(
                    signature@,
                    public@,
                    key@,
                ) {
                    Err(e) => out matches Err(Failure::Suite(f)) && f == e,
                    Ok(inner) => exists|rest: &str, verdict: Result<(), E>|
                        {
                            &&& rest@ == inner
                            &&& #[trigger] call_ensures(base, (rest, key), verdict)
                            &&& match verdict {
                                Ok(_) => out is Ok,
                                Err(e) => out matches Err(Failure::Base(f)) && f == e,
                            }
                        },
                },
            },
    {
        let rest = match self.check(signature, public) {
            Ok(rest) => rest,
            Err(e) => { return Err(Failure::Suite(e)); },
        };
        match self.state {
            MerkleState::Signer { .. } => Err(Failure::Suite(CoreError::InvalidState)),
            MerkleState::Verifier { key } => {
                let verdict = base(rest, key);
                conclude(verdict)
            },
        }
    }
}

} // verus!
