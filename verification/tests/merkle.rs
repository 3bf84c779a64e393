use identity_core::crypto::merkle_tree::digest::Digest;
use identity_core::crypto::merkle_tree::digest::DigestExt;
use identity_core::crypto::merkle_tree::hash;
use identity_core::crypto::merkle_tree::inclusion::Proof;
use identity_core::crypto::merkle_tree::merkle::MTree;
use identity_core::crypto::merkle_tree::node::Node;
use identity_core::crypto::merkle_tree::sha256::Sha256Digest;

type Sha256Hash = hash::Hash<Sha256Digest>;
type Sha256Proof = Proof<Sha256Digest>;

fn leaf(data: &[u8]) -> Sha256Hash {
    Sha256Digest::new().hash_data(data)
}

fn branch(lhs: &Sha256Hash, rhs: &Sha256Hash) -> Sha256Hash {
    Sha256Digest::new().hash_branch(lhs, rhs)
}

#[test]
fn test_hash() {
    let mut digest: Sha256Digest = Sha256Digest::new();

    let h1: Sha256Hash = digest.hash_data(b"A");
    let h2: Sha256Hash = digest.hash_data(b"B");

    assert_eq!(Node::L(h1.clone()).hash(&h2), digest.hash_branch(&h1, &h2));
    assert_eq!(Node::R(h1.clone()).hash(&h2), digest.hash_branch(&h2, &h1));

    assert_eq!(Node::L(h2.clone()).hash(&h1), digest.hash_branch(&h2, &h1));
    assert_eq!(Node::R(h2.clone()).hash(&h1), digest.hash_branch(&h1, &h2));
}

#[test]
fn test_works() {
    let nodes: Vec<Vec<u8>> = (0..(1 << 7))
        .map(|byte: u8| byte as char)
        .map(String::from)
        .map(String::into_bytes)
        .collect();

    let mut digest: Sha256Digest = Sha256Digest::new();

    let hashes: Vec<Sha256Hash> = nodes
        .iter()
        .map(|node| digest.hash_data(node.as_ref()))
        .collect();

    let tree: MTree<Sha256Digest> = MTree::from_leaves(&hashes).unwrap();

    assert_eq!(tree.data(), &hashes[..]);
    assert_eq!(tree.leaves(), hashes.len());

    for index in 0..hashes.len() {
        let proof: Sha256Proof = tree.inclusion_proof(index).unwrap();
        let root: Sha256Hash = proof.root(hashes[index].clone());

        assert_eq!(tree.root(), &root);
    }
}

#[test]
#[allow(non_snake_case)]
fn test_root() {
    let A: Sha256Hash = leaf(b"A");
    let B: Sha256Hash = leaf(b"B");
    let C: Sha256Hash = leaf(b"C");
    let D: Sha256Hash = leaf(b"D");
    let E: Sha256Hash = leaf(b"E");
    let F: Sha256Hash = leaf(b"F");
    let G: Sha256Hash = leaf(b"G");
    let H: Sha256Hash = leaf(b"H");

    let AB: Sha256Hash = branch(&A, &B);
    let CD: Sha256Hash = branch(&C, &D);
    let EF: Sha256Hash = branch(&E, &F);
    let GH: Sha256Hash = branch(&G, &H);

    let ABCD: Sha256Hash = branch(&AB, &CD);
    let EFGH: Sha256Hash = branch(&EF, &GH);

    let ABCDEFGH: Sha256Hash = branch(&ABCD, &EFGH);

    let data: [Sha256Hash; 8] = [
        A.clone(),
        B.clone(),
        C.clone(),
        D.clone(),
        E.clone(),
        F.clone(),
        G.clone(),
        H.clone(),
    ];
    let tree: MTree<Sha256Digest> = MTree::from_leaves(&data).unwrap();

    assert_eq!(tree.root(), &ABCDEFGH);
    assert_eq!(tree.data(), &[A.clone(), B.clone(), C.clone(), D.clone(), E.clone(), F.clone(), G.clone(), H.clone()]);
    assert_eq!(tree.height(), 3);
    assert_eq!(tree.leaves(), 8);

    assert_eq!(tree.layer(0), &[ABCDEFGH]);
    assert_eq!(tree.layer(1), &[ABCD, EFGH]);
    assert_eq!(tree.layer(2), &[AB, CD, EF, GH]);
    assert_eq!(tree.layer(3), &[A, B, C, D, E, F, G, H]);
    assert_eq!(tree.layer(4), &[]);
}
