use vstd::prelude::*;
use sha2::Digest as _;
use crate::crypto::merkle_tree::digest::Digest;

verus! {

/// `sha2::Sha256`, the running state of a SHA-256 computation. Nothing is
/// known of what is inside it.
#[verifier::external_type_specification]
#[verifier::external_body]
pub struct ExSha256Engine(sha2::Sha256);

/// SHA-256 of a message, as `sha2::Sha256` computes it.
pub uninterp spec fn sha256(message: Seq<u8>) -> Seq<u8>;

/// The bytes that a `sha2::Sha256` state has been fed since it was created
/// or last reset.
pub uninterp spec fn sha256_absorbed(engine: sha2::Sha256) -> Seq<u8>;

/// The longest message that `sha2::Sha256` can be fed: its bit counter is a
/// `u64`.
pub open spec fn sha256_capacity() -> nat {
    0x1fff_ffff_ffff_ffff
}

/// `sha2::Sha256::new`: a fresh state, which has been fed nothing.
#[verifier::external_body]
fn engine_new() -> (engine: sha2::Sha256)
    ensures
        sha256_absorbed(engine) == Seq::<u8>::empty(),
{
    sha2::Sha256::new()
}

/// `sha2::Sha256::update`: feeds `data` to the state, after what it was fed
/// before. The total must stay below 2^61 bytes, where the state's count of
/// bits would overflow.
#[verifier::external_body]
fn engine_update(engine: &mut sha2::Sha256, data: &[u8])
    requires
        sha256_absorbed(*old(engine)).len() + data@.len() <= sha256_capacity(),
    ensures
        sha256_absorbed(*final(engine)) == sha256_absorbed(*old(engine)) + data@,
{
    engine.update(data)
}

/// `sha2::Sha256::finalize_reset`: the 32-byte SHA-256 of all that the state
/// was fed; the state is then as new.
#[verifier::external_body]
fn engine_finalize_reset(engine: &mut sha2::Sha256) -> (output: Vec<u8>)
    ensures
        output@ == sha256(sha256_absorbed(*old(engine))),
        output@.len() == 32,
        sha256_absorbed(*final(engine)) == Seq::<u8>::empty(),
{
    engine.finalize_reset().to_vec()
}

/// The SHA-256 hash function.
#[derive(Debug)]
pub struct Sha256Digest {
    engine: sha2::Sha256,
}

impl Digest for Sha256Digest {
    closed spec fn absorbed(&self) -> Seq<u8> {
        sha256_absorbed(self.engine)
    }

    open spec fn spec_digest(message: Seq<u8>) -> Seq<u8> {
        sha256(message)
    }

    open spec fn spec_output_size() -> nat {
        32
    }

    open spec fn spec_capacity() -> nat {
        sha256_capacity()
    }

    proof fn lemma_branch_fits() {
    }

    fn new() -> (digest: Self) {
        Sha256Digest { engine: engine_new() }
    }

    fn update(&mut self, data: &[u8]) {
        engine_update(&mut self.engine, data)
    }

    fn reset(&mut self) {
        self.engine = engine_new();
    }

    fn finalize_reset(&mut self) -> (output: Vec<u8>) {
        engine_finalize_reset(&mut self.engine)
    }

    fn output_size() -> (size: usize) {
        32
    }

    fn accepts(len: usize) -> (yes: bool) {
        len as u64 <= 0x1fff_ffff_ffff_ffff
    }
}

} // verus!
