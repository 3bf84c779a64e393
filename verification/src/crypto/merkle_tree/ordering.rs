use std::cmp::Ordering;
use vstd::prelude::*;
use vstd::std_specs::cmp::PartialEqSpec;
use vstd::std_specs::cmp::PartialOrdSpec;
use vstd::std_specs::cmp::PartialOrdSpecImpl;
use crate::crypto::merkle_tree::digest::Digest;
use crate::crypto::merkle_tree::hash;
use crate::utils::lexicographic::compare;
use crate::utils::lexicographic::lemma_compare_equal;
use crate::utils::lexicographic::spec_compare;

verus! {

/// The order that a comparison's number stands for.
pub open spec fn order_of(sign: int) -> Ordering {
    if sign < 0 {
        Ordering::Less
    } else if sign > 0 {
        Ordering::Greater
    } else {
        Ordering::Equal
    }
}

impl<D: Digest> PartialOrd for hash::Hash<D> {
    /// Hashes are ordered as their bytes are in the dictionary.
    fn partial_cmp(&self, other: &Self) -> (order: Option<Ordering>) {
        let sign = compare(self.as_slice(), other.as_slice());
        if sign < 0 {
            Some(Ordering::Less)
        } else if sign > 0 {
            Some(Ordering::Greater)
        } else {
            Some(Ordering::Equal)
        }
    }
}

impl<D: Digest> PartialOrdSpecImpl for hash::Hash<D> {
    open spec fn obeys_partial_cmp_spec() -> bool {
        true
    }

    open spec fn partial_cmp_spec(&self, other: &Self) -> Option<Ordering> {
        Some(order_of(spec_compare(self@, other@)))
    }
}

/// The order of hashes agrees with their equality: two hashes compare as
/// equal exactly where they are equal.
pub proof fn lemma_order_agrees_with_equality<D: Digest>(a: hash::Hash<D>, b: hash::Hash<D>)
    ensures
        PartialOrdSpec::partial_cmp_spec(&a, &b) == Some(Ordering::Equal)
            <==> PartialEqSpec::eq_spec(&a, &b),
{
    lemma_compare_equal(a@, b@);
}

} // verus!
