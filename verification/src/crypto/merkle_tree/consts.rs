use vstd::prelude::*;

verus! {

/// The byte that precedes the data of a leaf in its hash.
pub const PREFIX_L: [u8; 1] = [0x00];

/// The byte that precedes the two children of a branch in its hash.
pub const PREFIX_B: [u8; 1] = [0x01];

/// The number of bytes of a `u16`.
pub const SIZE_U16: usize = 2;

} // verus!
