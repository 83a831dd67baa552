//! Splitting a slice into a fixed number of contiguous subsets: when the
//! length does not divide evenly, the earlier subsets receive one element
//! more until the remainder is used up.

use vstd::prelude::*;

verus! {

/// The size of the next subset: the length divided by the number of
/// remaining pieces, rounded up.
pub open spec fn spec_group_size(len: nat, pieces: nat) -> nat
    recommends
        pieces > 0,
{
    if len % pieces == 0 {
        len / pieces
    } else {
        len / pieces + 1
    }
}

/// The subsets that splitting `s` into `pieces` contiguous parts yields:
/// each step takes the ceiling of the remaining length over the remaining
/// piece count, until the input (or the piece count) runs out.
pub open spec fn spec_split_subsets<T>(s: Seq<T>, pieces: nat) -> Seq<Seq<T>>
    decreases pieces,
{
    if pieces == 0 || s.len() == 0 {
        Seq::empty()
    } else {
        let group = spec_group_size(s.len(), pieces) as int;
        seq![s.take(group)] + spec_split_subsets(s.skip(group), (pieces - 1) as nat)
    }
}

/// The character sequences of a sequence of slices.
pub open spec fn views_of_slices<T>(r: Seq<&[T]>) -> Seq<Seq<T>> {
    Seq::new(r.len(), |i: int| r[i]@)
}

/// Splits the slice into exactly `n_pieces` contiguous subsets (fewer if
/// the slice has fewer elements, none if `n_pieces` is zero). When the
/// length is not evenly divided, the first subsets have one more element,
/// until the remainder is consumed.
pub fn split_slice_into_subsets<'a, T>(data_slice: &'a [T], n_pieces: usize) -> (r: Vec<&'a [T]>)
    ensures
        views_of_slices(r@) == spec_split_subsets(data_slice@, n_pieces as nat),
{
    let mut out: Vec<&[T]> = Vec::new();
    let mut rest: &[T] = data_slice;
    let mut pieces = n_pieces;
    proof {
        assert(views_of_slices(out@) =~= Seq::<Seq<T>>::empty());
    }
    while pieces > 0 && rest.len() > 0
        invariant
            pieces <= n_pieces,
            views_of_slices(out@) + spec_split_subsets(rest@, pieces as nat) =~= spec_split_subsets(
                data_slice@,
                n_pieces as nat,
            ),
        decreases pieces,
    {
        let len = rest.len();
        proof {
            if len % pieces != 0 {
                assert(pieces >= 2) by {
                    if pieces == 1 {
                        assert(len % 1 == 0);
                    }
                }
                assert(len / pieces + 1 <= len) by (nonlinear_arith)
                    requires
                        pieces >= 2,
                        len >= 1,
                ;
            }
        }
        let group = if len % pieces == 0 {
            len / pieces
        } else {
            len / pieces + 1
        };
        proof {
            assert(group == spec_group_size(rest@.len(), pieces as nat));
        }
        let (first, second) = rest.split_at(group);
        let ghost pre_out = out@;
        let ghost pre_rest = rest@;
        let ghost pre_pieces = pieces as nat;
        out.push(first);
        rest = second;
        pieces = pieces - 1;
        proof {
            assert(first@ =~= pre_rest.take(group as int));
            assert(rest@ =~= pre_rest.skip(group as int));
            assert(views_of_slices(pre_out.push(first)) =~= views_of_slices(pre_out).push(first@));
            assert(spec_split_subsets(pre_rest, pre_pieces) =~= seq![pre_rest.take(group as int)]
                + spec_split_subsets(pre_rest.skip(group as int), pieces as nat));
            assert(views_of_slices(out@) + spec_split_subsets(rest@, pieces as nat)
                =~= views_of_slices(pre_out) + spec_split_subsets(pre_rest, pre_pieces));
        }
    }
    proof {
        assert(spec_split_subsets(rest@, pieces as nat) =~= Seq::<Seq<T>>::empty());
        assert(views_of_slices(out@) =~= spec_split_subsets(data_slice@, n_pieces as nat));
    }
    out
}

} // verus!
