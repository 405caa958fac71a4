use vstd::prelude::*;

use crate::escalator::EscalatorLocation;

verus! {

/// Most escalators a single tile can declare.
pub const MAX_ESCALATORS_PER_TILE: usize = 4;

/// Declaration of `arrayvec::ArrayVec` so that the bounded escalator list
/// can appear in fields and signatures. The value is opaque to the verifier;
/// everything known about it goes through [`esc_vec_view`] and the wrappers
/// below.
#[verifier::external_type_specification]
#[verifier::external_body]
#[verifier::reject_recursive_types(T)]
pub struct ExArrayVec<T, const CAP: usize>(arrayvec::ArrayVec<T, CAP>);

/// The escalator pairs held by the list, in order, as plain coordinate pairs.
pub uninterp spec fn esc_vec_view(v: arrayvec::ArrayVec<EscalatorLocation, 4>) -> Seq<
    ((u8, u8), (u8, u8)),
>;

/// Relies on `arrayvec::ArrayVec::new`: a freshly created vector is empty.
#[verifier::external_body]
pub fn esc_vec_new() -> (r: arrayvec::ArrayVec<EscalatorLocation, 4>)
    ensures
        esc_vec_view(r) == Seq::<((u8, u8), (u8, u8))>::empty(),
{
    arrayvec::ArrayVec::new()
}

/// Relies on `arrayvec::ArrayVec::len`: the number of initialized elements.
#[verifier::external_body]
pub fn esc_vec_len(v: &arrayvec::ArrayVec<EscalatorLocation, 4>) -> (r: usize)
    ensures
        r == esc_vec_view(*v).len(),
{
    v.len()
}

/// Relies on `arrayvec::ArrayVec::try_push`: appends when below capacity
/// and reports an error (leaving the vector unchanged) when full.
#[verifier::external_body]
pub fn esc_vec_try_push(
    v: &mut arrayvec::ArrayVec<EscalatorLocation, 4>,
    e: EscalatorLocation,
) -> (r: bool)
    ensures
        esc_vec_view(*old(v)).len() < 4 ==> r && esc_vec_view(*final(v)) == esc_vec_view(
            *old(v),
        ).push(e@),
        esc_vec_view(*old(v)).len() >= 4 ==> !r && esc_vec_view(*final(v)) == esc_vec_view(
            *old(v),
        ),
{
    v.try_push(e).is_ok()
}

/// Relies on `ArrayVec`'s `Deref` to a slice of the initialized elements:
/// indexing below the length reads the element stored there.
#[verifier::external_body]
pub fn esc_vec_get(v: &arrayvec::ArrayVec<EscalatorLocation, 4>, i: usize) -> (r:
    EscalatorLocation)
    requires
        i < esc_vec_view(*v).len(),
    ensures
        r@ == esc_vec_view(*v)[i as int],
{
    v[i]
}

/// Relies on `ArrayVec`'s `DerefMut` to a slice of the initialized elements:
/// writing below the length replaces that element and no other.
#[verifier::external_body]
pub fn esc_vec_set(
    v: &mut arrayvec::ArrayVec<EscalatorLocation, 4>,
    i: usize,
    e: EscalatorLocation,
)
    requires
        i < esc_vec_view(*old(v)).len(),
    ensures
        esc_vec_view(*final(v)) == esc_vec_view(*old(v)).update(i as int, e@),
{
    v[i] = e;
}

/// Relies on `ArrayVec`'s `Clone`, which rebuilds the vector from its
/// initialized elements in order.
#[verifier::external_body]
pub fn esc_vec_clone(v: &arrayvec::ArrayVec<EscalatorLocation, 4>) -> (r: arrayvec::ArrayVec<
    EscalatorLocation,
    4,
>)
    ensures
        esc_vec_view(r) == esc_vec_view(*v),
{
    v.clone()
}

} // verus!
