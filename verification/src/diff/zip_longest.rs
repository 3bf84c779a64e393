use std::collections::VecDeque;
use vstd::prelude::*;

verus! {

/// One step through two sequences side by side: an item of each, or an item
/// of only one where the other has run out.
#[derive(Clone, Debug, Hash, PartialEq, Eq)]
pub enum EoB<T, U> {
    /// An item of each sequence.
    Both(T, U),
    /// An item of the left sequence alone.
    Lhs(T),
    /// An item of the right sequence alone.
    Rhs(U),
}

/// Two sequences that are walked in step until both have run out.
#[derive(Debug)]
pub struct ZipLongest<T, U> {
    a: VecDeque<T>,
    b: VecDeque<U>,
}

/// What step `i` through `a` and `b` is, for `i` below the length of the
/// longer one.
pub open spec fn spec_zip_at<T, U>(a: Seq<T>, b: Seq<U>, i: int) -> EoB<T, U> {
    if i < a.len() && i < b.len() {
        EoB::Both(a[i], b[i])
    } else if i < a.len() {
        EoB::Lhs(a[i])
    } else {
        EoB::Rhs(b[i])
    }
}

/// The steps through `a` and `b` side by side: pairs as long as both
/// last, then what is left of the longer one.
pub open spec fn spec_zip_longest<T, U>(a: Seq<T>, b: Seq<U>) -> Seq<EoB<T, U>> {
    Seq::new(
        if a.len() >= b.len() {
            a.len()
        } else {
            b.len()
        },
        |i: int| spec_zip_at(a, b, i),
    )
}

/// A sequence without its first item, or as it is where it has none.
pub open spec fn spec_tail<T>(items: Seq<T>) -> Seq<T> {
    if items.len() > 0 {
        items.drop_first()
    } else {
        items
    }
}

/// What is left of a sequence after `count` items, which may be more than
/// it has.
pub open spec fn spec_rest<T>(items: Seq<T>, count: nat) -> Seq<T> {
    if count < items.len() {
        items.skip(count as int)
    } else {
        Seq::<T>::empty()
    }
}

/// The first `count` items of a sequence.
pub open spec fn spec_front<T>(items: Seq<T>, count: nat) -> Seq<T> {
    items.take(count as int)
}

/// Walks `a` and `b` side by side until both have run out.
pub fn zip_longest<T, U>(a: VecDeque<T>, b: VecDeque<U>) -> (zip: ZipLongest<T, U>)
    ensures
        zip.spec_lhs() == a@,
        zip.spec_rhs() == b@,
{
    ZipLongest { a, b }
}

impl<T, U> ZipLongest<T, U> {
    /// What is left of the left sequence.
    pub closed spec fn spec_lhs(&self) -> Seq<T> {
        self.a@
    }

    /// What is left of the right sequence.
    pub closed spec fn spec_rhs(&self) -> Seq<U> {
        self.b@
    }

    /// The next step: the first item of each sequence that has one, which
    /// is then taken off it; nothing once both have run out.
    pub fn next(&mut self) -> (step: Option<EoB<T, U>>)
        ensures
            old(self).spec_lhs().len() == 0 && old(self).spec_rhs().len() == 0 ==> step is None,
            old(self).spec_lhs().len() > 0 || old(self).spec_rhs().len() > 0 ==> step == Some(
                spec_zip_at(old(self).spec_lhs(), old(self).spec_rhs(), 0),
            ),
            final(self).spec_lhs() == spec_tail(old(self).spec_lhs()),
            final(self).spec_rhs() == spec_tail(old(self).spec_rhs()),
    {
        let a = self.a.pop_front();
        let b = self.b.pop_front();
        proof {
            assert(self.a@ =~= spec_tail(old(self).a@));
            assert(self.b@ =~= spec_tail(old(self).b@));
        }
        match (a, b) {
            (Some(a), Some(b)) => Some(EoB::Both(a, b)),
            (Some(a), None) => Some(EoB::Lhs(a)),
            (None, Some(b)) => Some(EoB::Rhs(b)),
            (None, None) => None,
        }
    }

    /// The number of steps that are left, as a lower and an upper bound:
    /// the length of the longer sequence.
    pub fn size_hint(&self) -> (hint: (usize, Option<usize>))
        ensures
            hint.0 == spec_zip_longest(self.spec_lhs(), self.spec_rhs()).len(),
            hint.1 == Some(hint.0),
    {
        let al = self.a.len();
        let bl = self.b.len();
        if al >= bl {
            (al, Some(al))
        } else {
            (bl, Some(bl))
        }
    }

    /// All the steps that are left, in order.
    pub fn into_vec(self) -> (steps: Vec<EoB<T, U>>)
        ensures
            steps@ == spec_zip_longest(self.spec_lhs(), self.spec_rhs()),
    {
        let ghost a = self.a@;
        let ghost b = self.b@;
        let ghost all = spec_zip_longest(a, b);
        let al = self.a.len();
        let bl = self.b.len();
        let mut zip = self;
        let mut steps: Vec<EoB<T, U>> = Vec::new();
        loop
            invariant
                a.len() <= usize::MAX,
                b.len() <= usize::MAX,
                all == spec_zip_longest(a, b),
                steps@.len() <= all.len(),
                zip.spec_lhs() == spec_rest(a, steps@.len()),
                zip.spec_rhs() == spec_rest(b, steps@.len()),
                steps@ == spec_front(all, steps@.len()),
            ensures
                steps@ == all,
            decreases all.len() - steps@.len(),
        {
            let ghost done = steps@.len();
            match zip.next() {
                Some(step) => {
                    steps.push(step);
                    proof {
                        assert(spec_tail(spec_rest(a, done)) =~= spec_rest(a, done + 1));
                        assert(spec_tail(spec_rest(b, done)) =~= spec_rest(b, done + 1));
                        assert(step == spec_front(all, done + 1).last());
                        assert(steps@ =~= spec_front(all, done + 1));
                    }
                },
                None => {
                    assert(steps@ =~= all);
                    break;
                },
            }
        }
        steps
    }
}

} // verus!
