//! Signature suites.

pub mod jcsed25519merklesignature2021;
