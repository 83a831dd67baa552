//! Removing duplicate elements from vectors: in the original order
//! (`unique`), in sorted order (`unique_ordered`), and through small
//! cursor types that hand the retained elements out one by one.

use vstd::prelude::*;

verus! {

use core::cmp::Ordering;
use core::hash::Hash;
use vstd::laws_cmp::obeys_cmp;
use vstd::laws_eq::obeys_concrete_eq;
use vstd::std_specs::cmp::OrdSpec;
use vstd::std_specs::cmp::PartialOrdSpec;

use crate::vecs::dedup_first_occurrences;
use crate::vecs::spec_dedup_first;

/// True when the sequence is sorted: no earlier element compares greater
/// than a later one.
pub open spec fn sorted_le<T: Ord>(s: Seq<T>) -> bool {
    forall|a: int, b: int|
        0 <= a < b < s.len() ==> #[trigger] s[a].cmp_spec(&s[b]) != Ordering::Greater
}

/// True when no two elements of the sequence are equal.
pub open spec fn distinct_seq<T>(s: Seq<T>) -> bool {
    forall|a: int, b: int| 0 <= a < b < s.len() ==> s[a] != s[b]
}

/// A trait for extracting unique elements from a vector, either keeping
/// the original order of first occurrences or producing sorted output.
pub trait UniqueElements<T>: View<V = Seq<T>> {
    /// Deduplicates in place, keeping the first occurrence of each
    /// element in its original position.
    fn unique(&mut self) where T: Eq + Hash + Clone
        ensures
            obeys_concrete_eq::<T>() ==> final(self)@ == spec_dedup_first(old(self)@),
            final(self)@.len() <= old(self)@.len(),
    ;

    /// Sorts the elements and removes the duplicates: afterwards the
    /// vector is sorted, holds no element twice, and holds exactly the
    /// elements it held before.
    fn unique_ordered(&mut self) where T: Eq + Ord
        ensures
            obeys_cmp::<T>() && obeys_concrete_eq::<T>() ==> sorted_le(final(self)@)
                && distinct_seq(final(self)@) && (forall|x: T|
                final(self)@.contains(x) <==> old(self)@.contains(x)),
            final(self)@.len() <= old(self)@.len(),
    ;
}

impl<T> UniqueElements<T> for Vec<T> {
    fn unique(&mut self) where T: Eq + Hash + Clone {
        dedup_first_occurrences(self);
    }

    fn unique_ordered(&mut self) where T: Eq + Ord {
        sorted_dedup(self);
    }
}

/// Inserting an element into a sequence adds it to the elements and keeps
/// the others.
proof fn lemma_insert_contains<T>(s: Seq<T>, p: int, y: T, x: T)
    requires
        0 <= p <= s.len(),
    ensures
        s.insert(p, y).contains(x) <==> (s.contains(x) || x == y),
{
    let t = s.insert(p, y);
    if s.contains(x) {
        let w = choose|w: int| 0 <= w < s.len() && s[w] == x;
        if w < p {
            assert(t[w] == x);
        } else {
            assert(t[w + 1] == x);
        }
        assert(t.contains(x));
    }
    if x == y {
        assert(t[p] == x);
        assert(t.contains(x));
    }
    if t.contains(x) {
        let w = choose|w: int| 0 <= w < t.len() && t[w] == x;
        if w < p {
            assert(s[w] == x);
            assert(s.contains(x));
        } else if w == p {
            assert(x == y);
        } else {
            assert(s[w - 1] == x);
            assert(s.contains(x));
        }
    }
}

/// Replaces the vector's contents by its distinct elements in ascending
/// order, inserting each element at its sorted position and dropping the
/// ones already present.
fn sorted_dedup<T: Eq + Ord>(v: &mut Vec<T>)
    ensures
        obeys_cmp::<T>() && obeys_concrete_eq::<T>() ==> sorted_le(final(v)@) && distinct_seq(
            final(v)@,
        ) && (forall|x: T| final(v)@.contains(x) <==> old(v)@.contains(x)),
        final(v)@.len() <= old(v)@.len(),
{
    let ghost orig = v@;
    let ghost cond = obeys_cmp::<T>() && obeys_concrete_eq::<T>();
    proof {
        reveal(vstd::laws_eq::obeys_concrete_eq);
        reveal(vstd::laws_cmp::obeys_cmp_partial_ord);
        reveal(vstd::laws_cmp::obeys_cmp_ord);
        reveal(vstd::laws_cmp::obeys_partial_cmp_spec_properties);
    }
    let orig_len = v.len();
    let mut out: Vec<T> = Vec::new();
    let mut i: usize = 0;
    while v.len() > 0
        invariant
            orig.len() == orig_len,
            i + v@.len() == orig.len(),
            v@ == orig.skip(i as int),
            out@.len() <= i,
            cond == (obeys_cmp::<T>() && obeys_concrete_eq::<T>()),
            cond ==> sorted_le(out@) && distinct_seq(out@) && (forall|x: T|
                out@.contains(x) <==> orig.take(i as int).contains(x)),
        decreases v@.len(),
    {
        let x = v.remove(0);
        proof {
            assert(orig.skip(i as int).remove(0) =~= orig.skip(i + 1));
            assert(x == orig[i as int]);
        }
        let ghost pre = out@;
        // Scan for the first element that does not compare below `x`.
        let mut p: usize = 0;
        let mut stop = false;
        while !stop && p < out.len()
            invariant
                p <= out@.len(),
                out@ == pre,
                cond == (obeys_cmp::<T>() && obeys_concrete_eq::<T>()),
                cond ==> forall|j: int|
                    0 <= j < p ==> #[trigger] out@[j].cmp_spec(&x) == Ordering::Less,
                cond && stop ==> p < out@.len() && out@[p as int].cmp_spec(&x) != Ordering::Less,
            decreases out@.len() - p, (if stop { 0int } else { 1int }),
        {
            proof {
                reveal(vstd::laws_cmp::obeys_cmp_partial_ord);
                reveal(vstd::laws_cmp::obeys_cmp_ord);
            }
            if out[p].lt(&x) {
                p = p + 1;
            } else {
                stop = true;
            }
        }
        let is_dup = if p < out.len() {
            out[p] == x
        } else {
            false
        };
        proof {
            reveal(vstd::laws_eq::obeys_concrete_eq);
            reveal(vstd::laws_cmp::obeys_cmp_partial_ord);
            reveal(vstd::laws_cmp::obeys_cmp_ord);
            reveal(vstd::laws_cmp::obeys_partial_cmp_spec_properties);
        }
        if !is_dup {
            let ghost pp = p as int;
            out.insert(p, x);
            proof {
                if cond {
                    lemma_insert_contains(pre, pp, x, x);
                    assert forall|y: T| out@.contains(y) implies (pre.contains(y) || y == x) by {
                        lemma_insert_contains(pre, pp, x, y);
                    }
                    assert forall|y: T| pre.contains(y) || y == x implies out@.contains(y) by {
                        lemma_insert_contains(pre, pp, x, y);
                    }
                    // Every element below the insertion point is smaller, and
                    // every element at or above it is larger.
                    assert forall|q: int| pp <= q < pre.len() implies x.cmp_spec(&pre[q])
                        == Ordering::Less by {
                        assert(pre[pp].cmp_spec(&x) != Ordering::Less);
                        assert(pre[pp] != x);
                        assert(pre[pp].cmp_spec(&x) == Ordering::Greater);
                        assert(x.cmp_spec(&pre[pp]) == Ordering::Less);
                        if q > pp {
                            assert(pre[pp].cmp_spec(&pre[q]) != Ordering::Greater);
                            if pre[pp].cmp_spec(&pre[q]) == Ordering::Less {
                                assert(x.cmp_spec(&pre[q]) == Ordering::Less);
                            } else {
                                assert(pre[pp].cmp_spec(&pre[q]) == Ordering::Equal);
                                assert(pre[pp] == pre[q]);
                            }
                        }
                    }
                    assert(sorted_le(out@)) by {
                        assert forall|a: int, b: int| 0 <= a < b < out@.len() implies #[trigger] out@[a].cmp_spec(
                            &out@[b],
                        ) != Ordering::Greater by {
                            if a < pp && b < pp {
                                assert(out@[a] == pre[a] && out@[b] == pre[b]);
                            } else if a < pp && b == pp {
                                assert(out@[a] == pre[a] && out@[b] == x);
                                assert(pre[a].cmp_spec(&x) == Ordering::Less);
                            } else if a < pp && b > pp {
                                assert(out@[a] == pre[a] && out@[b] == pre[b - 1]);
                            } else if a == pp {
                                assert(out@[a] == x && out@[b] == pre[b - 1]);
                                assert(x.cmp_spec(&pre[b - 1]) == Ordering::Less);
                            } else {
                                assert(out@[a] == pre[a - 1] && out@[b] == pre[b - 1]);
                            }
                        }
                    }
                    assert(distinct_seq(out@)) by {
                        assert forall|a: int, b: int| 0 <= a < b < out@.len() implies out@[a]
                            != out@[b] by {
                            if a < pp && b < pp {
                                assert(out@[a] == pre[a] && out@[b] == pre[b]);
                            } else if a < pp && b == pp {
                                assert(out@[a] == pre[a] && out@[b] == x);
                                assert(pre[a].cmp_spec(&x) == Ordering::Less);
                            } else if a < pp && b > pp {
                                assert(out@[a] == pre[a] && out@[b] == pre[b - 1]);
                            } else if a == pp {
                                assert(out@[a] == x && out@[b] == pre[b - 1]);
                                assert(x.cmp_spec(&pre[b - 1]) == Ordering::Less);
                            } else {
                                assert(out@[a] == pre[a - 1] && out@[b] == pre[b - 1]);
                            }
                        }
                    }
                }
            }
        } else {
            proof {
                if cond {
                    assert(out@[p as int] == x);
                    assert(out@.contains(x)) by {
                        assert(out@[p as int] == x);
                    }
                }
            }
        }
        proof {
            if cond {
                assert(orig.take(i + 1).drop_last() =~= orig.take(i as int));
                assert(orig.take(i + 1).last() == orig[i as int]);
                assert forall|y: T| orig.take(i + 1).contains(y) implies (orig.take(
                    i as int,
                ).contains(y) || y == x) by {
                    let w = choose|w: int|
                        0 <= w < orig.take(i + 1).len() && #[trigger] orig.take(i + 1)[w] == y;
                    if w < i {
                        assert(orig.take(i as int)[w] == y);
                    }
                }
                assert forall|y: T| orig.take(i as int).contains(y) implies orig.take(
                    i + 1,
                ).contains(y) by {
                    let w = choose|w: int| 0 <= w < orig.take(i as int).len() && orig.take(
                        i as int,
                    )[w] == y;
                    assert(orig.take(i + 1)[w] == y);
                }
                assert(orig.take(i + 1).contains(x)) by {
                    assert(orig.take(i + 1)[i as int] == x);
                }
                assert(out@.contains(x));
                assert forall|y: T| #[trigger] out@.contains(y) implies orig.take(
                    i + 1,
                ).contains(y) by {
                    assert(pre.contains(y) || y == x);
                }
                assert forall|y: T| #[trigger] orig.take(i + 1).contains(y) implies out@.contains(
                    y,
                ) by {
                    assert(orig.take(i as int).contains(y) || y == x);
                    if orig.take(i as int).contains(y) {
                        assert(pre.contains(y));
                    }
                }
            }
        }
        i = i + 1;
    }
    proof {
        if cond {
            assert(orig.take(orig.len() as int) =~= orig);
        }
    }
    *v = out;
}

/// A cursor over the unique elements of a vector, preserving the order in
/// which they first appear.
pub struct UniqueIterator<T> {
    items: Vec<T>,
}

impl<T> View for UniqueIterator<T> {
    type V = Seq<T>;

    closed spec fn view(&self) -> Seq<T> {
        self.items@
    }
}

impl<T: PartialEq> UniqueIterator<T> {
    /// Deduplicates the given elements, keeping first occurrences in
    /// order.
    pub fn new(items: Vec<T>) -> (it: UniqueIterator<T>)
        ensures
            obeys_concrete_eq::<T>() ==> it@ == spec_dedup_first(items@),
            it@.len() <= items@.len(),
    {
        let mut v = items;
        dedup_first_occurrences(&mut v);
        UniqueIterator { items: v }
    }

    /// Hands out the next retained element, front first.
    pub fn next(&mut self) -> (r: Option<T>)
        ensures
            old(self)@.len() == 0 ==> r is None && final(self)@ == old(self)@,
            old(self)@.len() > 0 ==> r == Some(old(self)@[0]) && final(self)@ == old(
                self,
            )@.drop_first(),
    {
        if self.items.len() == 0 {
            None
        } else {
            let x = self.items.remove(0);
            proof {
                assert(old(self)@.remove(0) =~= old(self)@.drop_first());
            }
            Some(x)
        }
    }

    /// Hands out all remaining elements at once.
    pub fn into_vec(self) -> (r: Vec<T>)
        ensures
            r@ == self@,
    {
        self.items
    }
}

/// A cursor over all but the last element of a vector.
pub struct SkipLastIterator<T> {
    items: Vec<T>,
}

impl<T> View for SkipLastIterator<T> {
    type V = Seq<T>;

    closed spec fn view(&self) -> Seq<T> {
        self.items@
    }
}

impl<T> SkipLastIterator<T> {
    /// Drops the last of the given elements (an empty input stays empty).
    pub fn new(items: Vec<T>) -> (it: SkipLastIterator<T>)
        ensures
            it@ == if items@.len() == 0 {
                items@
            } else {
                items@.drop_last()
            },
    {
        let mut v = items;
        if v.len() > 0 {
            v.pop();
        }
        SkipLastIterator { items: v }
    }

    /// Hands out the next element, front first.
    pub fn next(&mut self) -> (r: Option<T>)
        ensures
            old(self)@.len() == 0 ==> r is None && final(self)@ == old(self)@,
            old(self)@.len() > 0 ==> r == Some(old(self)@[0]) && final(self)@ == old(
                self,
            )@.drop_first(),
    {
        if self.items.len() == 0 {
            None
        } else {
            let x = self.items.remove(0);
            proof {
                assert(old(self)@.remove(0) =~= old(self)@.drop_first());
            }
            Some(x)
        }
    }

    /// Hands out all remaining elements at once.
    pub fn into_vec(self) -> (r: Vec<T>)
        ensures
            r@ == self@,
    {
        self.items
    }
}

/// Adapters from a vector to the two cursors above.
pub trait IteratorExt<T: PartialEq>: View<V = Seq<T>> + Sized {
    /// A cursor over the unique elements, preserving the order in which
    /// they first appear.
    fn get_unique(self) -> (it: UniqueIterator<T>)
        ensures
            obeys_concrete_eq::<T>() ==> it@ == spec_dedup_first(self@),
            it@.len() <= self@.len(),
    ;

    /// A cursor that skips the last element.
    fn skip_last(self) -> (it: SkipLastIterator<T>)
        ensures
            it@ == if self@.len() == 0 {
                self@
            } else {
                self@.drop_last()
            },
    ;
}

impl<T: PartialEq> IteratorExt<T> for Vec<T> {
    fn get_unique(self) -> (it: UniqueIterator<T>) {
        UniqueIterator::new(self)
    }

    fn skip_last(self) -> (it: SkipLastIterator<T>) {
        SkipLastIterator::new(self)
    }
}

} // verus!
