//! Shared helpers for vectors of arbitrary element types: the swap
//! wrapper, equality scans, and the first-occurrence deduplication
//! specification.
//!
//! Contracts over a generic element type `T` cannot promise anything about
//! `==` unless the type's equality is well behaved, so the clauses here
//! are conditional on `obeys_concrete_eq::<T>()` (its `PartialEq` agrees
//! with logical equality) and, where elements are cloned, on
//! `clone_faithful::<T>()` (its `Clone` returns the value itself). Both
//! hold of the primitive types and of `String`.

use vstd::prelude::*;

verus! {

use vstd::laws_eq::obeys_concrete_eq;
use vstd::multiset::Multiset;

/// True when every possible result of `T::clone` equals the value that
/// was cloned.
pub open spec fn clone_faithful<T: Clone>() -> bool {
    forall|x: T, y: T| call_ensures(T::clone, (&x,), y) ==> y == x
}

/// The sequence `s` with the elements at positions `i` and `j` exchanged.
pub open spec fn spec_swapped<T>(s: Seq<T>, i: int, j: int) -> Seq<T>
    recommends
        0 <= i < s.len(),
        0 <= j < s.len(),
{
    s.update(i, s[j]).update(j, s[i])
}

/// Relies on `<[T]>::swap`: exchanges the elements at the two indices.
#[verifier::external_body]
pub(crate) fn vec_swap<T>(v: &mut Vec<T>, i: usize, j: usize)
    requires
        i < old(v).len(),
        j < old(v).len(),
    ensures
        final(v)@ == spec_swapped(old(v)@, i as int, j as int),
{
    v.swap(i, j);
}

/// Exchanging a sequence element with a fresh value removes the old
/// element from the multiset and inserts the new one.
proof fn lemma_update_to_multiset<T>(s: Seq<T>, i: int, v: T)
    requires
        0 <= i < s.len(),
    ensures
        s.update(i, v).to_multiset() =~= s.to_multiset().remove(s[i]).insert(v),
{
    broadcast use vstd::seq_lib::lemma_multiset_commutative;
    broadcast use vstd::multiset::group_multiset_axioms;
    broadcast use vstd::seq_lib::group_to_multiset_ensures;

    let prefix = s.take(i);
    let suffix = s.skip(i + 1);
    assert(s =~= prefix + seq![s[i]] + suffix);
    assert(s.update(i, v) =~= prefix + seq![v] + suffix);
    assert(seq![s[i]] =~= Seq::<T>::empty().push(s[i]));
    assert(seq![v] =~= Seq::<T>::empty().push(v));
    assert(Seq::<T>::empty().to_multiset() =~= Multiset::<T>::empty());
    assert(s.to_multiset() =~= prefix.to_multiset().insert(s[i]).add(suffix.to_multiset()));
    assert(s.update(i, v).to_multiset() =~= prefix.to_multiset().insert(v).add(
        suffix.to_multiset(),
    ));
}

/// Exchanging two elements of a sequence leaves its multiset unchanged.
pub proof fn lemma_swap_preserves_multiset<T>(s: Seq<T>, i: int, j: int)
    requires
        0 <= i < s.len(),
        0 <= j < s.len(),
    ensures
        spec_swapped(s, i, j).to_multiset() =~= s.to_multiset(),
{
    broadcast use vstd::multiset::group_multiset_axioms;
    broadcast use vstd::seq_lib::group_to_multiset_ensures;

    if i == j {
        assert(spec_swapped(s, i, j) =~= s);
    } else {
        let s1 = s.update(i, s[j]);
        lemma_update_to_multiset(s, i, s[j]);
        lemma_update_to_multiset(s1, j, s[i]);
        assert(s1[j] == s[j]);
        assert(s.to_multiset().contains(s[i]));
        assert(s1.to_multiset().contains(s[j]));
    }
}

/// The index of the first element satisfying `pred`, or the length of
/// the sequence if there is none.
pub open spec fn first_index_where<A>(s: Seq<A>, pred: spec_fn(A) -> bool) -> int
    decreases s.len(),
{
    if s.len() == 0 {
        0
    } else if pred(s[0]) {
        0
    } else {
        1 + first_index_where(s.drop_first(), pred)
    }
}

/// A forward scan that stops at the first element satisfying `pred`
/// computes `first_index_where`.
pub proof fn lemma_first_index_where<A>(s: Seq<A>, pred: spec_fn(A) -> bool, k: int)
    requires
        0 <= k <= s.len(),
        forall|i: int| 0 <= i < k ==> !pred(#[trigger] s[i]),
        k < s.len() ==> pred(s[k]),
    ensures
        first_index_where(s, pred) == k,
    decreases s.len(),
{
    if s.len() != 0 && !pred(s[0]) {
        lemma_first_index_where(s.drop_first(), pred, k - 1);
    }
}

/// The index of the last element satisfying `pred`, or -1 if there is
/// none.
pub open spec fn last_index_where<A>(s: Seq<A>, pred: spec_fn(A) -> bool) -> int
    decreases s.len(),
{
    if s.len() == 0 {
        -1
    } else if pred(s.last()) {
        s.len() - 1
    } else {
        last_index_where(s.drop_last(), pred)
    }
}

/// A backward scan that stops at the last element satisfying `pred`
/// computes `last_index_where`.
pub proof fn lemma_last_index_where<A>(s: Seq<A>, pred: spec_fn(A) -> bool, k: int)
    requires
        -1 <= k < s.len(),
        forall|i: int| k < i < s.len() ==> !pred(#[trigger] s[i]),
        k >= 0 ==> pred(s[k]),
    ensures
        last_index_where(s, pred) == k,
    decreases s.len(),
{
    if s.len() != 0 && !pred(s.last()) {
        lemma_last_index_where(s.drop_last(), pred, k);
    }
}

/// Whether the vector holds an element equal to `x`.
pub fn vec_contains<T: PartialEq>(v: &Vec<T>, x: &T) -> (b: bool)
    ensures
        obeys_concrete_eq::<T>() ==> b == v@.contains(*x),
{
    proof {
        reveal(vstd::laws_eq::obeys_concrete_eq);
    }
    let mut i: usize = 0;
    while i < v.len()
        invariant
            i <= v@.len(),
            obeys_concrete_eq::<T>() ==> forall|j: int| 0 <= j < i ==> v@[j] != *x,
        decreases v@.len() - i,
    {
        proof {
            reveal(vstd::laws_eq::obeys_concrete_eq);
        }
        if v[i] == *x {
            proof {
                if obeys_concrete_eq::<T>() {
                    assert(v@.contains(*x));
                }
            }
            return true;
        }
        i = i + 1;
    }
    false
}

/// The number of elements of `s` equal to `x`.
pub open spec fn occurrences_of<T>(s: Seq<T>, x: T) -> nat {
    s.filter(|y: T| y == x).len()
}

/// Counts the elements of the vector equal to `x`.
pub fn vec_count_matches<T: PartialEq>(v: &Vec<T>, x: &T) -> (n: usize)
    ensures
        obeys_concrete_eq::<T>() ==> n == occurrences_of(v@, *x),
{
    proof {
        reveal(Seq::filter);
        reveal(vstd::laws_eq::obeys_concrete_eq);
        assert(v@.take(0).filter(|y: T| y == *x) =~= Seq::<T>::empty());
    }
    let mut n: usize = 0;
    let mut i: usize = 0;
    while i < v.len()
        invariant
            i <= v@.len(),
            n <= i,
            obeys_concrete_eq::<T>() ==> n == v@.take(i as int).filter(|y: T| y == *x).len(),
        decreases v@.len() - i,
    {
        proof {
            reveal(Seq::filter);
            reveal(vstd::laws_eq::obeys_concrete_eq);
            broadcast use Seq::lemma_filter_len;

            assert(v@.take(i + 1).drop_last() =~= v@.take(i as int));
            assert(v@.take(i + 1).last() == v@[i as int]);
            assert(v@.take(i + 1).filter(|y: T| y == *x) == if (|y: T| y == *x)(v@[i as int]) {
                v@.take(i as int).filter(|y: T| y == *x).push(v@[i as int])
            } else {
                v@.take(i as int).filter(|y: T| y == *x)
            });
        }
        if v[i] == *x {
            n = n + 1;
        }
        i = i + 1;
    }
    proof {
        assert(v@.take(v@.len() as int) =~= v@);
    }
    n
}

/// The subsequence of first occurrences: an element is kept exactly when
/// no earlier element equals it.
pub open spec fn spec_dedup_first<T>(s: Seq<T>) -> Seq<T>
    decreases s.len(),
{
    if s.len() == 0 {
        s
    } else {
        let rest = spec_dedup_first(s.drop_last());
        if s.drop_last().contains(s.last()) {
            rest
        } else {
            rest.push(s.last())
        }
    }
}

/// Deduplication keeps exactly the elements of the original sequence.
pub proof fn lemma_dedup_first_contains<T>(s: Seq<T>, x: T)
    ensures
        spec_dedup_first(s).contains(x) <==> s.contains(x),
    decreases s.len(),
{
    if s.len() > 0 {
        lemma_dedup_first_contains(s.drop_last(), x);
        let rest = spec_dedup_first(s.drop_last());
        if s.contains(x) {
            let w = choose|w: int| 0 <= w < s.len() && s[w] == x;
            if w < s.len() - 1 {
                assert(s.drop_last().contains(x)) by {
                    assert(s.drop_last()[w] == x);
                }
            }
            if !spec_dedup_first(s).contains(x) {
                if s.drop_last().contains(s.last()) {
                    assert(rest.contains(x));
                } else {
                    assert(spec_dedup_first(s) == rest.push(s.last()));
                    if x == s.last() {
                        assert(rest.push(s.last())[rest.len() as int] == x);
                        assert(spec_dedup_first(s).contains(x));
                    } else {
                        assert(rest.contains(x));
                        let u = choose|u: int| 0 <= u < rest.len() && rest[u] == x;
                        assert(rest.push(s.last())[u] == x);
                    }
                }
                assert(false);
            }
        } else {
            if spec_dedup_first(s).contains(x) {
                let u = choose|u: int|
                    0 <= u < spec_dedup_first(s).len() && spec_dedup_first(s)[u] == x;
                if s.drop_last().contains(s.last()) {
                    assert(rest.contains(x));
                } else {
                    if u < rest.len() {
                        assert(rest.contains(x)) by {
                            assert(rest[u] == x);
                        }
                    } else {
                        assert(x == s.last());
                        assert(s.contains(x)) by {
                            assert(s[s.len() - 1] == x);
                        }
                    }
                }
                assert(false);
            }
        }
    }
}

/// Removes every element equal to an earlier one, keeping the first
/// occurrences in their original order. The elements themselves are
/// moved, never cloned.
pub fn dedup_first_occurrences<T: PartialEq>(v: &mut Vec<T>)
    ensures
        obeys_concrete_eq::<T>() ==> final(v)@ == spec_dedup_first(old(v)@),
        final(v)@.len() <= old(v)@.len(),
{
    let ghost orig = v@;
    let orig_len = v.len();
    let mut kept: Vec<T> = Vec::new();
    let mut i: usize = 0;
    while v.len() > 0
        invariant
            orig.len() == orig_len,
            i + v@.len() == orig.len(),
            v@ == orig.skip(i as int),
            kept@.len() <= i,
            obeys_concrete_eq::<T>() ==> kept@ == spec_dedup_first(orig.take(i as int)),
        decreases v@.len(),
    {
        let x = v.remove(0);
        proof {
            assert(orig.skip(i as int).remove(0) =~= orig.skip(i + 1));
            assert(x == orig[i as int]);
        }
        let ghost pre = kept@;
        let keep = !vec_contains(&kept, &x);
        if keep {
            kept.push(x);
        }
        proof {
            if obeys_concrete_eq::<T>() {
                assert(orig.take(i + 1).drop_last() =~= orig.take(i as int));
                assert(orig.take(i + 1).last() == orig[i as int]);
                lemma_dedup_first_contains(orig.take(i as int), orig[i as int]);
            }
        }
        i = i + 1;
    }
    proof {
        if obeys_concrete_eq::<T>() {
            assert(orig.take(orig.len() as int) =~= orig);
        }
    }
    *v = kept;
}

} // verus!
