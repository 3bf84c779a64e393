//! A Merkle tree over a fixed, power-of-two number of leaves.

pub mod consts;
pub mod digest;
pub mod hash;
pub mod inclusion;
pub mod laws;
pub mod math;
pub mod merkle;
pub mod node;
pub mod ordering;
pub mod sha256;

pub use self::consts::PREFIX_B;
pub use self::consts::PREFIX_L;
pub use self::consts::SIZE_U16;
pub use self::digest::Digest;
pub use self::digest::DigestExt;
pub use self::inclusion::Proof;
pub use self::math::is_pow2;
pub use self::merkle::MTree;
pub use self::node::Node;
pub use self::sha256::Sha256Digest;
