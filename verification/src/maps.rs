//! Conversions from the standard set collections to vectors of their
//! elements. The collections hold elements of an arbitrary type, so the
//! conversions are trusted calls into the standard library (and into
//! itertools for the sorted variant); their contracts hold under the
//! model conditions that vstd attaches to those collections.

use vstd::prelude::*;

verus! {

use itertools::Itertools;
use std::collections::BTreeSet;
use std::collections::HashSet;
use std::collections::hash_map::RandomState;
use vstd::laws_cmp::obeys_cmp;
use vstd::laws_eq::obeys_concrete_eq;
use vstd::std_specs::hash::builds_valid_hashers;
use vstd::std_specs::hash::obeys_key_model;

use crate::unique::distinct_seq;
use crate::unique::sorted_le;
use crate::vecs::clone_faithful;

/// The conditions under which vstd's model ties a hash set's view to its
/// contents: the element type hashes deterministically, and the default
/// hasher builder is well behaved.
pub open spec fn hash_set_model_holds<T>() -> bool {
    obeys_key_model::<T>() && builds_valid_hashers::<RandomState>()
}

/// Conversions from a `HashSet` to a vector of its elements.
pub trait HashSetExtension<T: PartialEq>: View<V = Set<T>> {
    /// Converts the set to a vector holding a clone of each element,
    /// in no promised order.
    fn to_vec(&self) -> (r: Vec<T>) where T: Clone
        ensures
            hash_set_model_holds::<T>() ==> {
                &&& r@.len() == self@.len()
                &&& obeys_concrete_eq::<T>() && clone_faithful::<T>() ==> distinct_seq(r@) && (
                forall|x: T| self@.contains(x) <==> r@.contains(x))
            },
    ;

    /// Converts the set to a vector holding a clone of each element, in
    /// ascending order.
    fn to_vec_sorted(&self) -> (r: Vec<T>) where T: Clone + Ord
        ensures
            hash_set_model_holds::<T>() ==> {
                &&& r@.len() == self@.len()
                &&& obeys_concrete_eq::<T>() && clone_faithful::<T>() ==> distinct_seq(r@) && (
                forall|x: T| self@.contains(x) <==> r@.contains(x))
                &&& obeys_cmp::<T>() && obeys_concrete_eq::<T>() && clone_faithful::<T>()
                    ==> sorted_le(r@)
            },
    ;
}

/// Relies on `HashSet::iter` (each element is visited once) and on
/// `Clone`.
#[verifier::external_body]
fn hash_set_to_vec<T: core::hash::Hash + Eq + Clone>(s: &HashSet<T>) -> (r: Vec<T>)
    ensures
        hash_set_model_holds::<T>() ==> {
            &&& r@.len() == s@.len()
            &&& obeys_concrete_eq::<T>() && clone_faithful::<T>() ==> distinct_seq(r@) && (forall|
                x: T,
            |
                s@.contains(x) <==> r@.contains(x))
        },
{
    s.iter().cloned().collect()
}

/// Relies on `HashSet::iter`, on `Clone`, and on itertools' `sorted`,
/// which sorts by the `Ord` implementation.
#[verifier::external_body]
fn hash_set_to_vec_sorted<T: core::hash::Hash + Eq + Clone + Ord>(s: &HashSet<T>) -> (r: Vec<T>)
    ensures
        hash_set_model_holds::<T>() ==> {
            &&& r@.len() == s@.len()
            &&& obeys_concrete_eq::<T>() && clone_faithful::<T>() ==> distinct_seq(r@) && (forall|
                x: T,
            |
                s@.contains(x) <==> r@.contains(x))
            &&& obeys_cmp::<T>() && obeys_concrete_eq::<T>() && clone_faithful::<T>()
                ==> sorted_le(r@)
        },
{
    s.iter().sorted().cloned().collect()
}

impl<T: core::hash::Hash + Eq> HashSetExtension<T> for HashSet<T> {
    fn to_vec(&self) -> (r: Vec<T>) where T: Clone {
        hash_set_to_vec(self)
    }

    fn to_vec_sorted(&self) -> (r: Vec<T>) where T: Clone + Ord {
        hash_set_to_vec_sorted(self)
    }
}

/// Conversions from a `BTreeSet` to a vector of its elements.
pub trait BTreeSetExtension<T: PartialEq>: View<V = Set<T>> {
    /// Converts the set to a vector holding a clone of each element, in
    /// ascending order.
    fn to_vec(&self) -> (r: Vec<T>) where T: Clone + Ord
        ensures
            obeys_cmp::<T>() ==> {
                &&& r@.len() == self@.len()
                &&& obeys_concrete_eq::<T>() && clone_faithful::<T>() ==> distinct_seq(r@) && (
                forall|x: T| self@.contains(x) <==> r@.contains(x)) && sorted_le(r@)
            },
    ;
}

/// Relies on `BTreeSet::iter`: each element is visited once, in
/// ascending order; and on `Clone`.
#[verifier::external_body]
fn btree_set_to_vec<T: Clone + Ord>(s: &BTreeSet<T>) -> (r: Vec<T>)
    ensures
        obeys_cmp::<T>() ==> {
            &&& r@.len() == s@.len()
            &&& obeys_concrete_eq::<T>() && clone_faithful::<T>() ==> distinct_seq(r@) && (forall|
                x: T,
            |
                s@.contains(x) <==> r@.contains(x)) && sorted_le(r@)
        },
{
    s.iter().cloned().collect()
}

impl<T: Ord> BTreeSetExtension<T> for BTreeSet<T> {
    fn to_vec(&self) -> (r: Vec<T>) where T: Clone + Ord {
        btree_set_to_vec(self)
    }
}

} // verus!
