//! Dropping elements from the back of a vector: the last one, or the
//! last `n`.

use vstd::prelude::*;

verus! {

/// Skipping elements at the back of a collection.
pub trait SkipBack<T>: View<V = Seq<T>> + Sized {
    /// Drops the last element; an empty collection stays empty.
    fn skip_last(self) -> (r: Self)
        ensures
            r@ == if self@.len() == 0 {
                self@
            } else {
                self@.drop_last()
            },
    ;

    /// Drops the last `n` elements; fewer than `n` elements leave
    /// nothing.
    fn skip_back(self, n: usize) -> (r: Self)
        ensures
            r@ == if n as int <= self@.len() {
                self@.take(self@.len() - n as int)
            } else {
                Seq::<T>::empty()
            },
    ;
}

impl<T> SkipBack<T> for Vec<T> {
    fn skip_last(self) -> (r: Vec<T>) {
        let mut v = self;
        if v.len() > 0 {
            v.pop();
        }
        v
    }

    fn skip_back(self, n: usize) -> (r: Vec<T>) {
        let mut v = self;
        if n >= v.len() {
            v.truncate(0);
            proof {
                assert(v@ =~= Seq::<T>::empty());
            }
        } else {
            let keep = v.len() - n;
            v.truncate(keep);
        }
        v
    }
}

} // verus!
