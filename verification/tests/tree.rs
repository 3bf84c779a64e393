use identity_core::crypto::merkle_tree::digest::Digest;
use identity_core::crypto::merkle_tree::digest::DigestExt;
use identity_core::crypto::merkle_tree::hash;
use identity_core::crypto::merkle_tree::math::height_of;
use identity_core::crypto::merkle_tree::math::is_pow2;
use identity_core::crypto::merkle_tree::math::leaves_of;
use identity_core::crypto::merkle_tree::math::total_of;
use identity_core::crypto::merkle_tree::merkle::MTree;
use identity_core::crypto::merkle_tree::node::Node;
use identity_core::crypto::merkle_tree::sha256::Sha256Digest;

type Sha256Hash = hash::Hash<Sha256Digest>;

fn leaf(data: &[u8]) -> Sha256Hash {
    Sha256Digest::new().hash_data(data)
}

fn leaves(count: usize) -> Vec<Sha256Hash> {
    (0..count).map(|i| leaf(&(i as u64).to_be_bytes())).collect()
}

#[test]
fn test_build_then_proof() {
    for height in 1..=10usize {
        let count = 1usize << height;
        let hashes = leaves(count);
        let tree: MTree<Sha256Digest> = MTree::from_leaves(&hashes).unwrap();
        assert_eq!(tree.leaves(), count);
        assert_eq!(tree.height(), height);
        for index in 0..count {
            let proof = tree.inclusion_proof(index).unwrap();
            assert_eq!(proof.nodes().len(), height);
            assert_eq!(&proof.root(hashes[index].clone()), tree.root());
            assert!(tree.verify(&proof, hashes[index].clone()));
        }
        assert!(tree.inclusion_proof(count).is_none());
    }
}

#[test]
fn test_rejects_what_is_no_power_of_two() {
    for count in [0usize, 3, 5, 6, 7, 9, 12, 100, 1023] {
        assert!(MTree::<Sha256Digest>::from_leaves(&leaves(count)).is_none());
    }
    for count in [1usize, 2, 4, 8, 64] {
        assert!(MTree::<Sha256Digest>::from_leaves(&leaves(count)).is_some());
    }
}

#[test]
fn test_single_leaf_tree() {
    let hashes = leaves(1);
    let tree: MTree<Sha256Digest> = MTree::from_leaves(&hashes).unwrap();
    assert_eq!(tree.leaves(), 1);
    assert_eq!(tree.height(), 0);
    assert_eq!(tree.root(), &hashes[0]);
    assert_eq!(tree.data(), &hashes[..]);
    let proof = tree.inclusion_proof(0).unwrap();
    assert_eq!(proof.nodes().len(), 0);
    assert!(tree.verify(&proof, hashes[0].clone()));
    assert!(tree.inclusion_proof(1).is_none());
    assert_eq!(tree.layer(0), &hashes[..]);
    assert_eq!(tree.layer(1), &[]);
}

#[test]
fn test_two_leaves() {
    let hashes = leaves(2);
    let tree: MTree<Sha256Digest> = MTree::from_leaves(&hashes).unwrap();
    let root = Sha256Digest::new().hash_branch(&hashes[0], &hashes[1]);
    assert_eq!(tree.root(), &root);
    let left = tree.inclusion_proof(0).unwrap();
    let right = tree.inclusion_proof(1).unwrap();
    assert_eq!(left.nodes(), &[Node::R(hashes[1].clone())]);
    assert_eq!(right.nodes(), &[Node::L(hashes[0].clone())]);
}

#[test]
fn test_proof_siblings_of_eight_leaves() {
    let hashes = leaves(8);
    let tree: MTree<Sha256Digest> = MTree::from_leaves(&hashes).unwrap();
    let layer1 = tree.layer(1).to_vec();
    let layer2 = tree.layer(2).to_vec();
    // Leaf 5 is the right child of the third pair, which is the left child
    // of the right half.
    let proof = tree.inclusion_proof(5).unwrap();
    assert_eq!(
        proof.nodes(),
        &[
            Node::L(hashes[4].clone()),
            Node::R(layer2[3].clone()),
            Node::L(layer1[0].clone()),
        ]
    );
}

#[test]
fn test_proof_of_another_leaf_fails() {
    let hashes = leaves(8);
    let tree: MTree<Sha256Digest> = MTree::from_leaves(&hashes).unwrap();
    let proof = tree.inclusion_proof(2).unwrap();
    assert!(tree.verify(&proof, hashes[2].clone()));
    assert!(!tree.verify(&proof, hashes[3].clone()));
    assert!(!tree.verify(&proof, leaf(b"stranger")));
}

#[test]
fn test_layers_beyond_the_leaves_are_empty() {
    let tree: MTree<Sha256Digest> = MTree::from_leaves(&leaves(4)).unwrap();
    assert_eq!(tree.layer(0).len(), 1);
    assert_eq!(tree.layer(1).len(), 2);
    assert_eq!(tree.layer(2).len(), 4);
    assert_eq!(tree.layer(3).len(), 0);
    assert_eq!(tree.layer(63).len(), 0);
    assert_eq!(tree.layer(64).len(), 0);
    assert_eq!(tree.layer(usize::MAX).len(), 0);
}

#[test]
fn test_tree_arithmetic() {
    assert!(!is_pow2(0));
    assert!(is_pow2(1));
    assert!(is_pow2(2));
    assert!(!is_pow2(3));
    assert!(is_pow2(1 << 40));
    assert!(!is_pow2((1 << 40) + 1));
    assert!(!is_pow2(usize::MAX));
    assert_eq!(height_of(1), 0);
    assert_eq!(height_of(2), 1);
    assert_eq!(height_of(128), 7);
    assert_eq!(height_of(1024), 10);
    assert_eq!(leaves_of(1), 1);
    assert_eq!(leaves_of(15), 8);
    assert_eq!(leaves_of(usize::MAX), usize::MAX / 2 + 1);
    assert_eq!(total_of(1), 1);
    assert_eq!(total_of(8), 15);
}

#[test]
fn test_leaf_and_branch_prefixes() {
    let mut digest = Sha256Digest::new();
    let a = digest.hash_data(b"A");
    let b = digest.hash_data(b"B");

    let mut plain = Sha256Digest::new();
    plain.update(&[0x00]);
    plain.update(b"A");
    assert_eq!(a.as_slice(), &plain.finalize_reset()[..]);

    plain.update(&[0x01]);
    plain.update(a.as_slice());
    plain.update(b.as_slice());
    let expected = plain.finalize_reset();
    assert_eq!(digest.hash_branch(&a, &b).as_slice(), &expected[..]);
    assert_ne!(digest.hash_branch(&a, &b), digest.hash_branch(&b, &a));
}

#[test]
fn test_digest_forgets_on_reset() {
    let mut digest = Sha256Digest::new();
    digest.update(b"noise");
    digest.reset();
    let empty = digest.finalize_reset();
    assert_eq!(empty, Sha256Digest::new().finalize_reset());
    digest.update(b"noise");
    let leaf_after_noise = digest.hash_data(b"A");
    assert_eq!(leaf_after_noise, Sha256Digest::new().hash_data(b"A"));
    assert_eq!(Sha256Digest::output_size(), 32);
}

#[test]
fn test_sha256_known_value() {
    let mut digest = Sha256Digest::new();
    digest.update(b"a");
    digest.update(b"bc");
    let output = digest.finalize_reset();
    let expected: [u8; 32] = [
        0xba, 0x78, 0x16, 0xbf, 0x8f, 0x01, 0xcf, 0xea, 0x41, 0x41, 0x40, 0xde, 0x5d, 0xae, 0x22,
        0x23, 0xb0, 0x03, 0x61, 0xa3, 0x96, 0x17, 0x7a, 0x9c, 0xb4, 0x10, 0xff, 0x61, 0xf2, 0x00,
        0x15, 0xad,
    ];
    assert_eq!(output, expected.to_vec());
}
