//! Duplicate handling for vectors: in-place deduplication that keeps
//! first occurrences, and partitioning into the elements that occur once
//! and those that occur more often.

use vstd::prelude::*;

verus! {

use core::hash::Hash;
use vstd::laws_eq::obeys_concrete_eq;

use crate::vecs::clone_faithful;
use crate::vecs::dedup_first_occurrences;
use crate::vecs::occurrences_of;
use crate::vecs::spec_dedup_first;
use crate::vecs::vec_count_matches;

/// Gets unique values from vector items.
pub trait Unique<T>: View<V = Seq<T>> {
    /// Deduplicates in place, visiting each element once in the original
    /// order and keeping the first occurrence of each.
    fn unique(&mut self) where T: Clone + Eq + Hash
        ensures
            obeys_concrete_eq::<T>() ==> final(self)@ == spec_dedup_first(old(self)@),
            final(self)@.len() <= old(self)@.len(),
    ;
}

impl<T> Unique<T> for Vec<T> {
    fn unique(&mut self) where T: Clone + Eq + Hash {
        dedup_first_occurrences(self);
    }
}

/// Partitions a vector into unique and duplicate elements.
pub trait Partition<T>: View<V = Seq<T>> {
    /// Splits the elements, preserving order, into those that occur
    /// exactly once and those that occur more often (every occurrence of
    /// the latter is returned).
    fn partition_dup(&self) -> (r: (Vec<T>, Vec<T>)) where T: Clone + Eq + Hash
        ensures
            obeys_concrete_eq::<T>() && clone_faithful::<T>() ==> r.0@ == self@.filter(
                |x: T| occurrences_of(self@, x) == 1,
            ) && r.1@ == self@.filter(|x: T| occurrences_of(self@, x) != 1),
    ;
}

impl<T> Partition<T> for Vec<T> {
    fn partition_dup(&self) -> (r: (Vec<T>, Vec<T>)) where T: Clone + Eq + Hash {
        let ghost cond = obeys_concrete_eq::<T>() && clone_faithful::<T>();
        let mut unique: Vec<T> = Vec::new();
        let mut duplicate: Vec<T> = Vec::new();
        proof {
            reveal(Seq::filter);
            assert(self@.take(0).filter(|x: T| occurrences_of(self@, x) == 1) =~= Seq::<
                T,
            >::empty());
            assert(self@.take(0).filter(|x: T| occurrences_of(self@, x) != 1) =~= Seq::<
                T,
            >::empty());
        }
        let mut i: usize = 0;
        while i < self.len()
            invariant
                i <= self@.len(),
                cond == (obeys_concrete_eq::<T>() && clone_faithful::<T>()),
                cond ==> unique@ == self@.take(i as int).filter(
                    |x: T| occurrences_of(self@, x) == 1,
                ),
                cond ==> duplicate@ == self@.take(i as int).filter(
                    |x: T| occurrences_of(self@, x) != 1,
                ),
            decreases self@.len() - i,
        {
            let count = vec_count_matches(self, &self[i]);
            let item = (&self[i]).clone();
            proof {
                if cond {
                    assert(item == self@[i as int]);
                }
            }
            if count == 1 {
                unique.push(item);
            } else {
                duplicate.push(item);
            }
            proof {
                reveal(Seq::filter);
                assert(self@.take(i + 1).drop_last() =~= self@.take(i as int));
                assert(self@.take(i + 1).last() == self@[i as int]);
                assert(self@.take(i + 1).filter(|x: T| occurrences_of(self@, x) == 1) == if (|x: T|
                    occurrences_of(self@, x) == 1)(self@[i as int]) {
                    self@.take(i as int).filter(|x: T| occurrences_of(self@, x) == 1).push(
                        self@[i as int],
                    )
                } else {
                    self@.take(i as int).filter(|x: T| occurrences_of(self@, x) == 1)
                });
                assert(self@.take(i + 1).filter(|x: T| occurrences_of(self@, x) != 1) == if (|x: T|
                    occurrences_of(self@, x) != 1)(self@[i as int]) {
                    self@.take(i as int).filter(|x: T| occurrences_of(self@, x) != 1).push(
                        self@[i as int],
                    )
                } else {
                    self@.take(i as int).filter(|x: T| occurrences_of(self@, x) != 1)
                });
            }
            i = i + 1;
        }
        proof {
            assert(self@.take(self@.len() as int) =~= self@);
        }
        (unique, duplicate)
    }
}

} // verus!
