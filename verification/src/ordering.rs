//! Trusted interface to the stable sort that ranks connected profiles.

use vstd::prelude::*;
use itertools::Itertools;

verus! {

/// Relies on itertools::Itertools::sorted_by_key: a stable sort by the
/// pair's second component. The result is a permutation of the input,
/// ordered by weight; with pairwise distinct first components given in
/// increasing order, ties keep that order, which the last clause states.
#[verifier::external_body]
pub(crate) fn sorted_by_second(v: Vec<(usize, usize)>) -> (r: Vec<(usize, usize)>)
    requires
        forall|i: int, j: int| 0 <= i < j < v@.len() ==> v@[i].0 < v@[j].0,
    ensures
        r@.len() == v@.len(),
        r@.to_multiset() == v@.to_multiset(),
        forall|i: int, j: int| 0 <= i < j < r@.len() ==> r@[i].1 <= r@[j].1,
        forall|i: int, j: int|
            0 <= i < j < r@.len() && r@[i].1 == r@[j].1 ==> r@[i].0 < r@[j].0,
{
    v.into_iter().sorted_by_key(|p| p.1).collect()
}

} // verus!
