//! Text codecs and comparisons that the rest of the crate leans on.

pub mod base_encoding;
pub mod constant_time;
pub mod hex;
pub mod lexicographic;

pub use self::base_encoding::decode_b58;
pub use self::base_encoding::decode_multibase;
pub use self::base_encoding::encode_b58;
pub use self::base_encoding::encode_multibase;
pub use self::base_encoding::Base;
pub use self::hex::decode_hex;
pub use self::hex::encode_hex;
