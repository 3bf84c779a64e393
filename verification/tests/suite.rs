use ed25519_dalek::Signature;
use ed25519_dalek::Signer;
use ed25519_dalek::SigningKey;
use ed25519_dalek::Verifier;
use ed25519_dalek::VerifyingKey;
use identity_core::crypto::merkle_tree::digest::Digest;
use identity_core::crypto::merkle_tree::digest::DigestExt;
use identity_core::crypto::merkle_tree::hash;
use identity_core::crypto::merkle_tree::inclusion::Proof;
use identity_core::crypto::merkle_tree::merkle::MTree;
use identity_core::crypto::merkle_tree::sha256::Sha256Digest;
use identity_core::error::CoreError;
use identity_core::signature::jcsed25519merklesignature2021::compose;
use identity_core::signature::jcsed25519merklesignature2021::conclude;
use identity_core::signature::jcsed25519merklesignature2021::split_point;
use identity_core::signature::jcsed25519merklesignature2021::Failure;
use identity_core::signature::jcsed25519merklesignature2021::JcsEd25519MerkleSignature2021;
use identity_core::utils::base_encoding::decode_b58;
use identity_core::utils::base_encoding::encode_b58;

type Sha256Hash = hash::Hash<Sha256Digest>;
type Suite<'a> = JcsEd25519MerkleSignature2021<'a, Sha256Digest>;

const MESSAGE: &[u8] = br#"{"hello":"world"}"#;

fn secret(index: usize) -> SigningKey {
    let mut seed = [0u8; 32];
    seed[0] = index as u8;
    seed[1] = 0x5a;
    SigningKey::from_bytes(&seed)
}

fn public(index: usize) -> Vec<u8> {
    secret(index).verifying_key().to_bytes().to_vec()
}

fn tree_of_keys(count: usize) -> MTree<Sha256Digest> {
    let mut digest = Sha256Digest::new();
    let hashes: Vec<Sha256Hash> = (0..count).map(|i| digest.hash_data(&public(i))).collect();
    MTree::from_leaves(&hashes).unwrap()
}

fn base_sign(index: usize) -> Result<String, String> {
    Ok(encode_b58(&secret(index).sign(MESSAGE).to_bytes()))
}

fn base_verify(signature: &str, key: &[u8]) -> Result<(), String> {
    let bytes = decode_b58(signature).map_err(|_| "signature is not base58".to_string())?;
    let signature = Signature::from_slice(&bytes).map_err(|e| e.to_string())?;
    let key: [u8; 32] = key.try_into().map_err(|_| "key has the wrong length".to_string())?;
    let key = VerifyingKey::from_bytes(&key).map_err(|e| e.to_string())?;
    key.verify(MESSAGE, &signature).map_err(|e| e.to_string())
}

fn suite_error<T: std::fmt::Debug, E: std::fmt::Debug>(out: Result<T, Failure<E>>) -> CoreError {
    match out {
        Err(Failure::Suite(e)) => e,
        other => panic!("expected an error of the suite, got {:?}", other),
    }
}

#[test]
fn test_sign_then_verify() {
    let tree = tree_of_keys(128);
    let root = tree.root().as_slice().to_vec();

    let signer = Suite::new_signer(&tree, 42);
    let signature = signer.sign(|| base_sign(42)).unwrap();

    let key = public(42);
    let verifier = Suite::new_verifier(&key);
    assert!(verifier.verify(&signature, &root, |s: &str, k: &[u8]| base_verify(s, k)).is_ok());

    let other = public(43);
    let verifier = Suite::new_verifier(&other);
    let out = verifier.verify(&signature, &root, |s: &str, k: &[u8]| base_verify(s, k));
    assert_eq!(suite_error(out), CoreError::InvalidProof);
}

#[test]
fn test_signature_is_proof_dot_inner() {
    let tree = tree_of_keys(8);
    let signer = Suite::new_signer(&tree, 3);
    let signature = signer.sign(|| base_sign(3)).unwrap();
    let token = signer.proof_token().unwrap();
    let inner = base_sign(3).unwrap();
    assert_eq!(signature, format!("{}.{}", token, inner));

    let proof = tree.inclusion_proof(3).unwrap();
    assert_eq!(token, encode_b58(&proof.encode()));
    assert_eq!(Proof::<Sha256Digest>::decode(&decode_b58(&token).unwrap()).unwrap(), proof);
}

#[test]
fn test_roles_exclude_each_other() {
    let tree = tree_of_keys(4);
    let root = tree.root().as_slice().to_vec();
    let key = public(0);

    let signer = Suite::new_signer(&tree, 0);
    let signature = signer.sign(|| base_sign(0)).unwrap();
    let out = signer.verify(&signature, &root, |s: &str, k: &[u8]| base_verify(s, k));
    assert_eq!(suite_error(out), CoreError::InvalidState);
    assert_eq!(signer.check(&signature, &root).unwrap_err(), CoreError::InvalidState);

    let verifier = Suite::new_verifier(&key);
    let out = verifier.sign(|| base_sign(0));
    assert_eq!(suite_error(out), CoreError::InvalidState);
    assert_eq!(verifier.proof_token().unwrap_err(), CoreError::InvalidState);
}

#[test]
fn test_base_suite_is_not_called_without_a_proof() {
    let tree = tree_of_keys(4);
    let key = public(0);
    let mut called = false;
    let out = Suite::new_verifier(&key).sign(|| -> Result<String, String> {
        called = true;
        Ok(String::new())
    });
    assert_eq!(suite_error(out), CoreError::InvalidState);
    assert!(!called);

    let out = Suite::new_signer(&tree, 4).sign(|| -> Result<String, String> {
        called = true;
        Ok(String::new())
    });
    assert_eq!(suite_error(out), CoreError::InvalidNode);
    assert!(!called);
}

#[test]
fn test_sign_with_a_leaf_that_is_not_there() {
    let tree = tree_of_keys(4);
    for node in [4usize, 5, 100, usize::MAX] {
        let out = Suite::new_signer(&tree, node).sign(|| base_sign(0));
        assert_eq!(suite_error(out), CoreError::InvalidNode);
    }
}

#[test]
fn test_errors_of_the_base_suite_pass_through() {
    let tree = tree_of_keys(4);
    let root = tree.root().as_slice().to_vec();
    let signer = Suite::new_signer(&tree, 1);

    let out = signer.sign(|| -> Result<String, String> { Err("no key".to_string()) });
    assert!(matches!(out, Err(Failure::Base(ref e)) if e == "no key"));

    let signature = signer.sign(|| base_sign(1)).unwrap();
    let key = public(1);
    let verifier = Suite::new_verifier(&key);
    let out = verifier
        .verify(&signature, &root, |_: &str, _: &[u8]| -> Result<(), u32> { Err(17) });
    assert!(matches!(out, Err(Failure::Base(17))));
}

#[test]
fn test_inner_signature_of_another_key_fails_in_the_base_suite() {
    let tree = tree_of_keys(4);
    let root = tree.root().as_slice().to_vec();
    let signer = Suite::new_signer(&tree, 1);
    // The proof is for key 1, but the signature proper was made with key 2.
    let signature = signer.sign(|| base_sign(2)).unwrap();
    let key = public(1);
    let out = Suite::new_verifier(&key)
        .verify(&signature, &root, |s: &str, k: &[u8]| base_verify(s, k));
    assert!(matches!(out, Err(Failure::Base(_))));
}

#[test]
fn test_signature_without_a_dot() {
    let tree = tree_of_keys(4);
    let root = tree.root().as_slice().to_vec();
    let key = public(0);
    let verifier = Suite::new_verifier(&key);
    for signature in ["", "abc", "zzzzzzzz"] {
        assert_eq!(verifier.check(signature, &root).unwrap_err(), CoreError::InvalidSignatureFormat);
        let out = verifier.verify(signature, &root, |s: &str, k: &[u8]| base_verify(s, k));
        assert_eq!(suite_error(out), CoreError::InvalidSignatureFormat);
    }
}

#[test]
fn test_signature_splits_at_the_first_dot() {
    let tree = tree_of_keys(4);
    let root = tree.root().as_slice().to_vec();
    let key = public(2);
    let token = Suite::new_signer(&tree, 2).proof_token().unwrap();
    let verifier = Suite::new_verifier(&key);

    let signature = format!("{}.first.second", token);
    assert_eq!(verifier.check(&signature, &root).unwrap(), "first.second");

    let signature = format!("{}..inner", token);
    assert_eq!(verifier.check(&signature, &root).unwrap(), ".inner");

    let signature = format!("{}.", token);
    assert_eq!(verifier.check(&signature, &root).unwrap(), "");

    let mut seen = String::new();
    let signature = format!("{}.a.b", token);
    let out = verifier.verify(&signature, &root, |s: &str, k: &[u8]| -> Result<(), String> {
        seen = s.to_string();
        assert_eq!(k, &key[..]);
        Ok(())
    });
    assert!(out.is_ok());
    assert_eq!(seen, "a.b");
}

#[test]
fn test_split_point() {
    assert_eq!(split_point(""), 0);
    assert_eq!(split_point("abc"), 3);
    assert_eq!(split_point(".abc"), 0);
    assert_eq!(split_point("ab.c.d"), 2);
    assert_eq!(split_point("abc."), 3);
    assert_eq!(split_point("é.x"), 1);
    assert_eq!(split_point("éé"), 2);
    assert_eq!(split_point("日本.語"), 2);
}

#[test]
fn test_signature_with_other_characters_after_the_dot() {
    let tree = tree_of_keys(4);
    let root = tree.root().as_slice().to_vec();
    let key = public(2);
    let token = Suite::new_signer(&tree, 2).proof_token().unwrap();
    let verifier = Suite::new_verifier(&key);
    let signature = format!("{}.é日本", token);
    assert_eq!(verifier.check(&signature, &root).unwrap(), "é日本");
    let signature = format!("é{}.x", token);
    assert_eq!(verifier.check(&signature, &root).unwrap_err(), CoreError::InvalidProof);
}

#[test]
fn test_invalid_proof_part() {
    let tree = tree_of_keys(4);
    let root = tree.root().as_slice().to_vec();
    let key = public(0);
    let verifier = Suite::new_verifier(&key);

    // Not base58.
    assert_eq!(verifier.check("0OIl.abc", &root).unwrap_err(), CoreError::InvalidProof);
    // Base58, but not the bytes of a proof.
    let token = encode_b58(&[1, 2, 3]);
    assert_eq!(verifier.check(&format!("{}.abc", token), &root).unwrap_err(), CoreError::InvalidProof);
    // No bytes at all.
    assert_eq!(verifier.check(".abc", &root).unwrap_err(), CoreError::InvalidProof);
    // A proof with trailing bytes.
    let mut bytes = tree.inclusion_proof(0).unwrap().encode();
    bytes.push(0);
    let token = encode_b58(&bytes);
    assert_eq!(verifier.check(&format!("{}.abc", token), &root).unwrap_err(), CoreError::InvalidProof);
    // The proof of another leaf.
    let token = Suite::new_signer(&tree, 1).proof_token().unwrap();
    assert_eq!(verifier.check(&format!("{}.abc", token), &root).unwrap_err(), CoreError::InvalidProof);
}

#[test]
fn test_invalid_root() {
    let tree = tree_of_keys(4);
    let root = tree.root().as_slice().to_vec();
    let key = public(0);
    let verifier = Suite::new_verifier(&key);
    let token = Suite::new_signer(&tree, 0).proof_token().unwrap();
    let signature = format!("{}.abc", token);

    assert_eq!(verifier.check(&signature, &root[..31]).unwrap_err(), CoreError::InvalidRoot);
    assert_eq!(verifier.check(&signature, &[]).unwrap_err(), CoreError::InvalidRoot);
    let mut longer = root.clone();
    longer.push(0);
    assert_eq!(verifier.check(&signature, &longer).unwrap_err(), CoreError::InvalidRoot);

    // A root of the right length that is not the root of the tree.
    let mut other = root.clone();
    other[0] ^= 1;
    assert_eq!(verifier.check(&signature, &other).unwrap_err(), CoreError::InvalidProof);

    // A broken proof is reported before a broken root.
    assert_eq!(verifier.check("0.abc", &[]).unwrap_err(), CoreError::InvalidProof);
}

#[test]
fn test_name() {
    let key = public(0);
    assert_eq!(Suite::new_verifier(&key).name(), "Ed25519MerkleSignature2021");
}

#[test]
fn test_compose_and_conclude() {
    let joined: Result<String, Failure<u8>> = compose("abc".to_string(), Ok("def".to_string()));
    assert_eq!(joined.unwrap(), "abc.def");
    let joined: Result<String, Failure<u8>> = compose("abc".to_string(), Err(3));
    assert!(matches!(joined, Err(Failure::Base(3))));
    let verdict: Result<(), Failure<u8>> = conclude(Ok(()));
    assert!(verdict.is_ok());
    let verdict: Result<(), Failure<u8>> = conclude(Err(9));
    assert!(matches!(verdict, Err(Failure::Base(9))));
}

#[test]
fn test_error_messages() {
    assert_eq!(CoreError::InvalidNode.message(), "Merkle Key Invalid Node");
    assert_eq!(CoreError::InvalidState.message(), "Invalid Merkle Key State");
    assert_eq!(CoreError::InvalidSignatureFormat.message(), "Merkle Key Invalid Signature");
    assert_eq!(CoreError::InvalidProof.message(), "Merkle Key Invalid Proof");
    assert_eq!(CoreError::InvalidRoot.message(), "Merkle Key Invalid Root Hash");
}
