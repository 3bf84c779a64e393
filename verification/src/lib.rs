//! Merkle-tree key collections for decentralized identifiers: a static
//! perfect binary hash tree with inclusion proofs, their wire format, the
//! signature suite built on them, and the text codecs that carry them.

pub mod common;
pub mod crypto;
pub mod diff;
pub mod error;
pub mod signature;
pub mod utils;
pub mod vc;
