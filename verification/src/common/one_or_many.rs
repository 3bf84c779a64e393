use vstd::prelude::*;

verus! {

/// One item, or any number of items.
///
/// The view is the items in their order.
#[derive(Debug)]
pub enum OneOrMany<T> {
    /// A single item.
    One(T),
    /// Any number of items.
    Many(Vec<T>),
}

impl<T> View for OneOrMany<T> {
    type V = Seq<T>;

    open spec fn view(&self) -> Seq<T> {
        match self {
            OneOrMany::One(item) => seq![*item],
            OneOrMany::Many(items) => items@,
        }
    }
}

/// `core::slice::from_ref`: the slice of length one that holds `item`.
#[verifier::external_body]
fn slice_of_one<T>(item: &T) -> (slice: &[T])
    ensures
        slice@ == seq![*item],
{
    core::slice::from_ref(item)
}

impl<T> OneOrMany<T> {
    /// The number of items.
    pub fn len(&self) -> (len: usize)
        ensures
            len == self@.len(),
    {
        match self {
            OneOrMany::One(_) => 1,
            OneOrMany::Many(items) => items.len(),
        }
    }

    /// Whether there is no item.
    pub fn is_empty(&self) -> (empty: bool)
        ensures
            empty == (self@.len() == 0),
    {
        self.len() == 0
    }

    /// The item at `index`, if there is one.
    pub fn get(&self, index: usize) -> (item: Option<&T>)
        ensures
            index < self@.len() ==> item == Some(&self@[index as int]),
            index >= self@.len() ==> item is None,
    {
        match self {
            OneOrMany::One(item) => if index == 0 {
                Some(item)
            } else {
                None
            },
            OneOrMany::Many(items) => if index < items.len() {
                Some(&items[index])
            } else {
                None
            },
        }
    }

    /// The items as a slice.
    pub fn as_slice(&self) -> (items: &[T])
        ensures
            items@ == self@,
    {
        match self {
            OneOrMany::One(item) => slice_of_one(item),
            OneOrMany::Many(items) => items.as_slice(),
        }
    }
}

} // verus!
