//! Types that several parts of the crate share.

pub mod one_or_many;
pub mod value;
