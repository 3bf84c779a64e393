use std::cmp::Ordering;
use std::collections::VecDeque;
use vstd::prelude::*;
use crate::diff::put_back::put_back;
use crate::diff::put_back::PutBack;
use crate::diff::zip_longest::spec_tail;
use crate::diff::zip_longest::EoB;

verus! {

/// Two sequences that are walked in the order that a comparison gives:
/// the smaller first item goes first, equal first items go together.
pub struct MergeJoinBy<T, U, F> {
    a: PutBack<T>,
    b: PutBack<U>,
    f: F,
}

/// Walks `a` and `b` in the order that `f` gives.
pub fn merge_join_by<T, U, F>(a: VecDeque<T>, b: VecDeque<U>, f: F) -> (join: MergeJoinBy<T, U, F>)
    ensures
        join.spec_lhs() == a@,
        join.spec_rhs() == b@,
        join.spec_f() == f,
{
    MergeJoinBy { a: put_back(a), b: put_back(b), f }
}

impl<T, U, F> MergeJoinBy<T, U, F> {
    /// What is left of the left sequence.
    pub closed spec fn spec_lhs(&self) -> Seq<T> {
        self.a@
    }

    /// What is left of the right sequence.
    pub closed spec fn spec_rhs(&self) -> Seq<U> {
        self.b@
    }

    /// The comparison.
    pub closed spec fn spec_f(&self) -> F {
        self.f
    }

    /// The next step. Where one sequence has run out, the first item of
    /// the other is taken off and handed out alone. Where both have a first
    /// item, the two are compared: equal items are both taken off and
    /// handed out together; otherwise the smaller one is taken off and
    /// handed out alone, and the larger one stays first in its sequence.
    pub fn next(&mut self) -> (step: Option<EoB<T, U>>) where F: Fn(&T, &U) -> Ordering
        requires
            forall|x: &T, y: &U| call_requires(old(self).spec_f(), (x, y)),
        ensures
            final(self).spec_f() == old(self).spec_f(),
            ({
                let a = old(self).spec_lhs();
                let b = old(self).spec_rhs();
                if a.len() == 0 && b.len() == 0 {
                    &&& step is None
                    &&& final(self).spec_lhs() == a
                    &&& final(self).spec_rhs() == b
                } else if b.len() == 0 {
                    &&& step == Some(EoB::<T, U>::Lhs(a[0]))
                    &&& final(self).spec_lhs() == a.drop_first()
                    &&& final(self).spec_rhs() == b
                } else if a.len() == 0 {
                    &&& step == Some(EoB::<T, U>::Rhs(b[0]))
                    &&& final(self).spec_lhs() == a
                    &&& final(self).spec_rhs() == b.drop_first()
                } else {
                    exists|order: Ordering|
                        {
                            &&& #[trigger] call_ensures(old(self).spec_f(), (&a[0], &b[0]), order)
                            &&& match order {
                                Ordering::Equal => {
                                    &&& step == Some(EoB::Both(a[0], b[0]))
                                    &&& final(self).spec_lhs() == a.drop_first()
                                    &&& final(self).spec_rhs() == b.drop_first()
                                },
                                Ordering::Less => {
                                    &&& step == Some(EoB::<T, U>::Lhs(a[0]))
                                    &&& final(self).spec_lhs() == a.drop_first()
                                    &&& final(self).spec_rhs() == b
                                },
                                Ordering::Greater => {
                                    &&& step == Some(EoB::<T, U>::Rhs(b[0]))
                                    &&& final(self).spec_lhs() == a
                                    &&& final(self).spec_rhs() == b.drop_first()
                                },
                            }
                        }
                }
            }),
    {
        let ghost a0 = self.a@;
        let ghost b0 = self.b@;
        let a = self.a.next();
        let b = self.b.next();
        match (a, b) {
            (None, None) => None,
            (Some(a), None) => Some(EoB::Lhs(a)),
            (None, Some(b)) => Some(EoB::Rhs(b)),
            (Some(a), Some(b)) => {
                assert(call_requires(old(self).spec_f(), (&a, &b)));
                let order = (self.f)(&a, &b);
                match order {
                    Ordering::Equal => Some(EoB::Both(a, b)),
                    Ordering::Less => {
                        self.b.put_back(b);
                        proof {
                            self.b.lemma_view();
                            assert(seq![b] + b0.drop_first() =~= b0);
                        }
                        Some(EoB::Lhs(a))
                    },
                    Ordering::Greater => {
                        self.a.put_back(a);
                        proof {
                            self.a.lemma_view();
                            assert(seq![a] + a0.drop_first() =~= a0);
                        }
                        Some(EoB::Rhs(b))
                    },
                }
            },
        }
    }

    /// The number of steps that are left, as a lower and an upper bound:
    /// at least the length of the longer sequence, at most the two lengths
    /// together, where that fits into a `usize`.
    pub fn size_hint(&self) -> (hint: (usize, Option<usize>))
        ensures
            ({
                let a = self.spec_lhs().len();
                let b = self.spec_rhs().len();
                let longer = if a >= b {
                    a
                } else {
                    b
                };
                &&& hint.0 == if longer <= usize::MAX {
                    longer as usize
                } else {
                    usize::MAX
                }
                &&& hint.1 == if a + b <= usize::MAX {
                    Some((a + b) as usize)
                } else {
                    None
                }
            }),
    {
        let (al, au) = self.a.size_hint();
        let (bl, bu) = self.b.size_hint();
        let lower = if al >= bl {
            al
        } else {
            bl
        };
        let upper = match (au, bu) {
            (Some(a), Some(b)) => if a > usize::MAX - b {
                None
            } else {
                Some(a + b)
            },
            _ => None,
        };
        (lower, upper)
    }
}

} // verus!
