use identity_core::crypto::merkle_tree::digest::Digest;
use identity_core::crypto::merkle_tree::digest::DigestExt;
use identity_core::crypto::merkle_tree::sha256::Sha256Digest;

#[test]
fn test_sha256_empty_message() {
    let mut digest = Sha256Digest::new();
    let output = digest.finalize_reset();
    assert_eq!(output.len(), 32);
    assert_eq!(output[0], 0xe3);
    assert_eq!(output[31], 0x55);
}

#[test]
fn test_hash_data_differs_from_plain_digest() {
    let mut digest = Sha256Digest::new();
    let leaf = digest.hash_data(b"");
    let mut plain = Sha256Digest::new();
    plain.update(&[0x00]);
    assert_eq!(leaf.as_slice(), &plain.finalize_reset()[..]);
}
