use std::collections::VecDeque;
use vstd::prelude::*;

verus! {

/// A queue of items that one item can be put back in front of.
///
/// The view is what `next` will hand out, in order: the item put back, if
/// there is one, then the items of the queue.
#[derive(Debug)]
pub struct PutBack<T> {
    top: Option<T>,
    iter: VecDeque<T>,
}

/// What a put-back queue holds: the item put back, then the rest.
pub open spec fn spec_put_back<T>(top: Option<T>, rest: Seq<T>) -> Seq<T> {
    match top {
        Some(item) => seq![item] + rest,
        None => rest,
    }
}

impl<T> View for PutBack<T> {
    type V = Seq<T>;

    closed spec fn view(&self) -> Seq<T> {
        spec_put_back(self.top, self.iter@)
    }
}

/// A put-back queue over the items of `iter`, with nothing put back.
pub fn put_back<T>(iter: VecDeque<T>) -> (queue: PutBack<T>)
    ensures
        queue@ == iter@,
        queue.spec_top() is None,
{
    PutBack { top: None, iter }
}

impl<T> PutBack<T> {
    /// The item that was put back and not yet handed out again.
    pub closed spec fn spec_top(&self) -> Option<T> {
        self.top
    }

    /// The items behind the one that was put back.
    pub closed spec fn spec_rest(&self) -> Seq<T> {
        self.iter@
    }

    /// The view is the item put back, then the rest.
    pub proof fn lemma_view(&self)
        ensures
            self@ == spec_put_back(self.spec_top(), self.spec_rest()),
    {
    }

    /// Puts `item` in front. An item that was put back before and not yet
    /// handed out again is dropped.
    pub fn put_back(&mut self, item: T)
        ensures
            final(self).spec_top() == Some(item),
            final(self).spec_rest() == old(self).spec_rest(),
            final(self)@ == seq![item] + old(self).spec_rest(),
            old(self).spec_top() is None ==> final(self)@ == seq![item] + old(self)@,
    {
        self.top = Some(item);
    }

    /// Hands out the first item, if there is one.
    pub fn next(&mut self) -> (item: Option<T>)
        ensures
            old(self)@.len() == 0 ==> item is None && final(self)@ == old(self)@,
            old(self)@.len() > 0 ==> item == Some(old(self)@[0]) && final(self)@ == old(
                self,
            )@.drop_first(),
            final(self).spec_top() is None,
    {
        match self.top.take() {
            Some(item) => {
                assert((seq![item] + self.iter@).drop_first() =~= self.iter@);
                Some(item)
            },
            None => {
                let item = self.iter.pop_front();
                assert(item is Some ==> old(self).iter@.drop_first() =~= self.iter@);
                item
            },
        }
    }

    /// The number of items that `next` will hand out, as a lower bound and
    /// an upper bound. The lower bound stops at the largest `usize`; there
    /// is no upper bound where the number does not fit into one.
    pub fn size_hint(&self) -> (hint: (usize, Option<usize>))
        ensures
            self@.len() <= usize::MAX ==> hint == (self@.len() as usize, Some(self@.len() as usize)),
            self@.len() > usize::MAX ==> hint == (usize::MAX, None::<usize>),
    {
        let rest = self.iter.len();
        let extra: usize = if self.top.is_some() {
            1
        } else {
            0
        };
        if rest > usize::MAX - extra {
            (usize::MAX, None)
        } else {
            (rest + extra, Some(rest + extra))
        }
    }
}

} // verus!
