//! Parts of verifiable credentials.

pub mod terms_of_use;
