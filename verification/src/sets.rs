//! Sorted sets of positions, kept and intersected by the `sdset` crate.
//!
//! Nothing in this file is proved: each contract states what the source of
//! `sdset` shows of the function that the wrapper calls.

use vstd::prelude::*;
use sdset::multi::Intersection;
use sdset::{SetBuf, SetOperation};

verus! {

/// `sdset::Set`: a slice that is known to be sorted and without repeats.
#[verifier::external_type_specification]
#[verifier::external_body]
#[verifier::reject_recursive_types(T)]
pub struct ExSortedSet<T>(sdset::Set<T>);

/// `sdset::SetBuf`: a vector that is known to be sorted and without repeats.
#[verifier::external_type_specification]
#[verifier::external_body]
#[verifier::reject_recursive_types(T)]
pub struct ExSetBuf<T>(SetBuf<T>);

/// `sdset::multi::Intersection`: sets that wait to be intersected.
#[verifier::external_type_specification]
#[verifier::external_body]
#[verifier::reject_recursive_types(T)]
pub struct ExIntersection<'a, T: 'a>(Intersection<'a, T>);

/// The elements of a borrowed set, in the order in which it holds them.
pub uninterp spec fn set_items(s: &sdset::Set<usize>) -> Seq<usize>;

/// The elements of an owned set, in the order in which it holds them.
pub uninterp spec fn buf_items(s: SetBuf<usize>) -> Seq<usize>;

/// The sets that an intersection was made of, each as its elements.
pub uninterp spec fn operand_sets(op: Intersection<'_, usize>) -> Seq<Seq<usize>>;

/// Each element is smaller than the next: sorted, and nothing twice.
pub open spec fn strictly_increasing(s: Seq<usize>) -> bool {
    forall|i: int, j: int| 0 <= i < j < s.len() ==> s[i] < s[j]
}

/// The elements of each of `sets`, in order.
pub open spec fn items_of_each(sets: Seq<&sdset::Set<usize>>) -> Seq<Seq<usize>> {
    Seq::new(sets.len(), |k: int| set_items(sets[k]))
}

/// `sdset::Set::new`: borrows a slice as a set if each of its elements is
/// smaller than the next, and refuses it otherwise. The set holds the
/// elements of the slice.
#[verifier::external_body]
pub(crate) fn checked_set<'a>(keys: &'a Vec<usize>) -> (r: Option<&'a sdset::Set<usize>>)
    ensures
        r is Some <==> strictly_increasing(keys@),
        r is Some ==> set_items(r->Some_0) == keys@,
{
    sdset::Set::new(keys.as_slice()).ok()
}

/// `sdset::multi::Intersection::new`: keeps the given sets, in their order,
/// for an intersection.
#[verifier::external_body]
pub(crate) fn intersection_of<'a>(sets: Vec<&'a sdset::Set<usize>>) -> (op: Intersection<
    'a,
    usize,
>)
    ensures
        operand_sets(op) == items_of_each(sets@),
{
    Intersection::new(sets)
}

/// `sdset::SetOperation::into_set_buf` on an intersection: the set of the
/// elements that every operand holds, in rising order. Of no operands it is
/// the empty set.
#[verifier::external_body]
pub(crate) fn intersection_into_set_buf<'a>(op: Intersection<'a, usize>) -> (buf: SetBuf<usize>)
    requires
        forall|k: int| 0 <= k < operand_sets(op).len() ==> strictly_increasing(
            #[trigger] operand_sets(op)[k],
        ),
    ensures
        strictly_increasing(buf_items(buf)),
        forall|x: usize| #[trigger]
            buf_items(buf).contains(x) <==> operand_sets(op).len() > 0 && forall|k: int|
                0 <= k < operand_sets(op).len() ==> (#[trigger] operand_sets(op)[k]).contains(x),
{
    op.into_set_buf()
}

/// `sdset::SetBuf::into_vec`: hands out the elements of the set, in the
/// order in which it holds them.
#[verifier::external_body]
pub(crate) fn set_buf_into_vec(buf: SetBuf<usize>) -> (v: Vec<usize>)
    ensures
        v@ == buf_items(buf),
{
    buf.into_vec()
}

} // verus!
