//! Cryptographic building blocks.

pub mod merkle_tree;
