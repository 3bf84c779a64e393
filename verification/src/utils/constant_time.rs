use vstd::prelude::*;
use subtle::ConstantTimeEq;

verus! {

/// `subtle::ConstantTimeEq::ct_eq` on two byte slices, turned into a `bool`:
/// whether the slices hold the same bytes. Slices of different lengths are
/// told apart at once; for equal lengths every byte is looked at.
#[verifier::external_body]
pub(crate) fn ct_eq(lhs: &[u8], rhs: &[u8]) -> (same: bool)
    ensures
        same == (lhs@ == rhs@),
{
    lhs.ct_eq(rhs).into()
}

} // verus!
