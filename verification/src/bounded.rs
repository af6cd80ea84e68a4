//! Vectors of fixed capacity: the groups of an address and a dataset.

use vstd::prelude::*;

verus! {

/// `heapless::Vec`, opaque: its contents are named below.
#[verifier::external_type_specification]
#[verifier::external_body]
#[verifier::reject_recursive_types(T)]
pub struct ExHeaplessVec<T, const N: usize>(heapless::Vec<T, N>);

/// The groups held, in order.
pub uninterp spec fn groups_of(v: heapless::Vec<u16, 8>) -> Seq<u16>;

/// The dataset held.
pub uninterp spec fn dataset_of(v: heapless::Vec<u8, 254>) -> Seq<u8>;

/// `heapless::Vec::new` at the size of an address: no groups.
#[verifier::external_body]
pub(crate) fn no_groups() -> (v: heapless::Vec<u16, 8>)
    ensures
        groups_of(v) == Seq::<u16>::empty(),
{
    heapless::Vec::new()
}

/// `heapless::Vec::push`: appends the group while there are fewer than eight,
/// and otherwise hands it back and changes nothing.
#[verifier::external_body]
pub(crate) fn push_group(v: &mut heapless::Vec<u16, 8>, g: u16) -> (r: Result<(), u16>)
    ensures
        r is Ok <==> groups_of(*old(v)).len() < 8,
        r is Err ==> r->Err_0 == g,
        groups_of(*final(v)) == (if r is Ok {
            groups_of(*old(v)).push(g)
        } else {
            groups_of(*old(v))
        }),
{
    v.push(g)
}

/// `heapless::Vec::as_slice`: the groups held.
#[verifier::external_body]
pub(crate) fn group_slice(v: &heapless::Vec<u16, 8>) -> (r: &[u16])
    ensures
        r@ == groups_of(*v),
{
    v.as_slice()
}

/// `heapless::Vec::new` at the size of a dataset: nothing held.
#[verifier::external_body]
pub(crate) fn no_dataset() -> (v: heapless::Vec<u8, 254>)
    ensures
        dataset_of(v) == Seq::<u8>::empty(),
{
    heapless::Vec::new()
}

/// `heapless::Vec::extend_from_slice`: appends all of `more` when it fits in
/// what is left of the 254 bytes, and otherwise fails and changes nothing.
#[verifier::external_body]
pub(crate) fn extend_dataset(v: &mut heapless::Vec<u8, 254>, more: &[u8]) -> (r: Result<(), ()>)
    ensures
        r is Ok <==> dataset_of(*old(v)).len() + more@.len() <= 254,
        dataset_of(*final(v)) == (if r is Ok {
            dataset_of(*old(v)) + more@
        } else {
            dataset_of(*old(v))
        }),
{
    v.extend_from_slice(more)
}

/// `heapless::Vec::as_slice`: the dataset held.
#[verifier::external_body]
pub(crate) fn dataset_slice(v: &heapless::Vec<u8, 254>) -> (r: &[u8])
    ensures
        r@ == dataset_of(*v),
{
    v.as_slice()
}

} // verus!
