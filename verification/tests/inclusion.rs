use identity_core::crypto::merkle_tree::digest::Digest;
use identity_core::crypto::merkle_tree::digest::DigestExt;
use identity_core::crypto::merkle_tree::hash;
use identity_core::crypto::merkle_tree::inclusion::read_u16;
use identity_core::crypto::merkle_tree::inclusion::Proof;
use identity_core::crypto::merkle_tree::merkle::MTree;
use identity_core::crypto::merkle_tree::node::Node;
use identity_core::crypto::merkle_tree::sha256::Sha256Digest;

type Sha256Hash = hash::Hash<Sha256Digest>;
type Sha256Proof = Proof<Sha256Digest>;

fn leaf(data: &[u8]) -> Sha256Hash {
    Sha256Digest::new().hash_data(data)
}

fn leaves(count: usize) -> Vec<Sha256Hash> {
    (0..count).map(|i| leaf(&(i as u64).to_be_bytes())).collect()
}

fn three_nodes() -> (Sha256Hash, Sha256Hash, Sha256Hash, Sha256Proof) {
    let h1 = leaf(b"1");
    let h2 = leaf(b"2");
    let h3 = leaf(b"3");
    let proof = Proof::new(vec![Node::L(h1.clone()), Node::R(h2.clone()), Node::L(h3.clone())]);
    (h1, h2, h3, proof)
}

#[test]
fn test_wire_codec() {
    let (h1, h2, h3, proof) = three_nodes();
    let bytes = proof.encode();
    assert_eq!(bytes.len(), 103);
    assert_eq!(&bytes[0..4], &[0x00, 0x20, 0x00, 0x03]);
    assert_eq!(bytes[4], 0x0f);
    assert_eq!(&bytes[5..37], h1.as_slice());
    assert_eq!(bytes[37], 0xf0);
    assert_eq!(&bytes[38..70], h2.as_slice());
    assert_eq!(bytes[70], 0x0f);
    assert_eq!(&bytes[71..103], h3.as_slice());

    let decoded = Sha256Proof::decode(&bytes).unwrap();
    assert_eq!(decoded, proof);
    assert_eq!(decoded.nodes(), proof.nodes());
    assert_eq!(decoded.encode(), bytes);
}

#[test]
fn test_decode_is_strict_about_length() {
    let (_, _, _, proof) = three_nodes();
    let bytes = proof.encode();

    assert!(Sha256Proof::decode(&bytes[..bytes.len() - 1]).is_none());

    let mut longer = bytes.clone();
    longer.push(0);
    assert!(Sha256Proof::decode(&longer).is_none());

    for cut in 0..bytes.len() {
        assert!(Sha256Proof::decode(&bytes[..cut]).is_none());
    }
}

#[test]
fn test_decode_rejects_short_input() {
    assert!(Sha256Proof::decode(&[]).is_none());
    assert!(Sha256Proof::decode(&[0x00]).is_none());
    assert!(Sha256Proof::decode(&[0x00, 0x20, 0x00]).is_none());
}

#[test]
fn test_decode_empty_proof() {
    let decoded = Sha256Proof::decode(&[0x00, 0x20, 0x00, 0x00]).unwrap();
    assert_eq!(decoded.nodes().len(), 0);
    assert_eq!(decoded.encode(), vec![0x00, 0x20, 0x00, 0x00]);
    assert!(Sha256Proof::decode(&[0x00, 0x20, 0x00, 0x00, 0x00]).is_none());
}

#[test]
fn test_decode_rejects_other_hash_length() {
    let (_, _, _, proof) = three_nodes();
    let mut bytes = proof.encode();
    bytes[1] = 0x1f;
    assert!(Sha256Proof::decode(&bytes).is_none());
    assert!(Sha256Proof::decode(&[0x00, 0x10, 0x00, 0x00]).is_none());
    assert!(Sha256Proof::decode(&[0x01, 0x20, 0x00, 0x00]).is_none());
}

#[test]
fn test_decode_rejects_other_count() {
    let (_, _, _, proof) = three_nodes();
    let mut bytes = proof.encode();
    bytes[3] = 0x02;
    assert!(Sha256Proof::decode(&bytes).is_none());
    bytes[3] = 0x04;
    assert!(Sha256Proof::decode(&bytes).is_none());
}

#[test]
fn test_decode_rejects_unknown_tag() {
    let (_, _, _, proof) = three_nodes();
    let bytes = proof.encode();
    for place in [4usize, 37, 70] {
        for tag in [0x00u8, 0x01, 0x0e, 0x1f, 0xff, 0xf1] {
            let mut changed = bytes.clone();
            changed[place] = tag;
            assert!(Sha256Proof::decode(&changed).is_none());
        }
    }
}

#[test]
fn test_from_tagged() {
    let hash = leaf(b"x");
    assert_eq!(Node::from_tagged(0x0f, hash.clone()), Some(Node::L(hash.clone())));
    assert_eq!(Node::from_tagged(0xf0, hash.clone()), Some(Node::R(hash.clone())));
    assert_eq!(Node::from_tagged(0x00, hash.clone()), None);
    assert_eq!(Node::from_tagged(0xff, hash.clone()), None);
    assert_eq!(Node::L(hash.clone()).get(), &hash);
    assert_eq!(Node::R(hash.clone()).get(), &hash);
    assert_eq!(Node::L(hash.clone()).tag(), 0x0f);
    assert_eq!(Node::R(hash.clone()).tag(), 0xf0);
    assert_ne!(Node::L(hash.clone()), Node::R(hash.clone()));
}

#[test]
fn test_encode_stream() {
    let hash = leaf(b"x");
    let mut expected = vec![0x0f];
    expected.extend_from_slice(hash.as_slice());
    assert_eq!(Node::L(hash.clone()).encode_stream(), expected);
    expected[0] = 0xf0;
    assert_eq!(Node::R(hash).encode_stream(), expected);
}

#[test]
fn test_read_u16() {
    assert_eq!(read_u16(&[]), None);
    assert_eq!(read_u16(&[0x01]), None);
    assert_eq!(read_u16(&[0x01, 0x02]), Some(0x0102));
    assert_eq!(read_u16(&[0xff, 0xff, 0x00]), Some(0xffff));
    assert_eq!(read_u16(&[0x00, 0x20]), Some(32));
}

#[test]
fn test_root_folds_leaf_to_root() {
    let (h1, h2, h3, proof) = three_nodes();
    let start = leaf(b"start");
    let mut digest = Sha256Digest::new();
    let step1 = digest.hash_branch(&h1, &start);
    let step2 = digest.hash_branch(&step1, &h2);
    let step3 = digest.hash_branch(&h3, &step2);
    assert_eq!(proof.root(start.clone()), step3);
    assert_eq!(proof.root_with(&mut digest, start.clone()), step3);
    assert!(proof.verify(&step3, start.clone()));
    assert!(!proof.verify(&step2, start.clone()));
    assert!(!proof.verify(&step3, h1));
}

#[test]
fn test_empty_proof_leads_to_the_leaf() {
    let proof = Sha256Proof::new(vec![]);
    let start = leaf(b"start");
    assert_eq!(proof.root(start.clone()), start);
    assert!(proof.verify(&start, start.clone()));
}

#[test]
fn test_wire_round_trip_of_tree_proofs() {
    let hashes = leaves(16);
    let tree: MTree<Sha256Digest> = MTree::from_leaves(&hashes).unwrap();
    for index in 0..16 {
        let proof = tree.inclusion_proof(index).unwrap();
        let bytes = proof.encode();
        assert_eq!(bytes.len(), 4 + 4 * 33);
        let decoded = Sha256Proof::decode(&bytes).unwrap();
        assert_eq!(decoded, proof);
        assert!(tree.verify(&decoded, hashes[index].clone()));
    }
}

#[test]
fn test_tampered_proof_is_rejected() {
    let hashes = leaves(8);
    let tree: MTree<Sha256Digest> = MTree::from_leaves(&hashes).unwrap();
    let proof = tree.inclusion_proof(5).unwrap();
    let bytes = proof.encode();
    assert!(tree.verify(&proof, hashes[5].clone()));
    for place in 0..bytes.len() {
        for bit in 0..8 {
            let mut changed = bytes.clone();
            changed[place] ^= 1 << bit;
            let accepted = match Sha256Proof::decode(&changed) {
                Some(other) => tree.verify(&other, hashes[5].clone()),
                None => false,
            };
            assert!(!accepted);
        }
    }
}

#[test]
fn test_proof_clone_is_equal() {
    let (_, _, _, proof) = three_nodes();
    assert_eq!(proof.clone(), proof);
    let other = Sha256Proof::new(vec![]);
    assert_ne!(other, proof);
}
