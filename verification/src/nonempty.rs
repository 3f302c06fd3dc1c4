//! Lists that are never empty, held by the `vec1` crate.

use vstd::prelude::*;

verus! {

/// `vec1::Vec1`, a vector of at least one element.
#[verifier::external_type_specification]
#[verifier::external_body]
#[verifier::reject_recursive_types(I)]
pub struct ExVec1<I>(vec1::Vec1<I>);

/// The elements of a `Vec1`.
pub uninterp spec fn elements(v: vec1::Vec1<u16>) -> Seq<u16>;

/// `Vec1::new`: a list of one element.
#[verifier::external_body]
pub(crate) fn one(first: u16) -> (r: vec1::Vec1<u16>)
    ensures
        elements(r) == seq![first],
{
    vec1::Vec1::new(first)
}

/// `Vec1::push`: appends an element. The outside function panics where the capacity that the
/// list grows to would be more than `isize::MAX` bytes; an element takes two of them, and the
/// rest of the factor is room to grow in.
#[verifier::external_body]
pub(crate) fn append(v: &mut vec1::Vec1<u16>, item: u16)
    requires
        elements(*old(v)).len() <= isize::MAX / 8,
    ensures
        elements(*final(v)) == elements(*old(v)).push(item),
{
    v.push(item)
}

/// `Vec1::into_vec`: the elements, of which there is at least one.
#[verifier::external_body]
pub(crate) fn into_vec(v: vec1::Vec1<u16>) -> (r: Vec<u16>)
    ensures
        r@ == elements(v),
        r@.len() > 0,
{
    v.into_vec()
}

} // verus!
