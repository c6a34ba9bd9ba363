//! Two-dimensional points, as `glam` computes them.
//!
//! A [`Vec2`] is carried through this library as an opaque value. Each
//! operation on it is a call into `glam`, and its result is known to the
//! contracts only by name: the same arguments give the same result. Two
//! vectors are the same value in a contract when `glam` cannot tell them
//! apart by arithmetic or comparison, so every not-a-number component is one
//! and the same.

use vstd::prelude::*;

use glam::BVec2;
use glam::Vec2;

verus! {

/// `glam::Vec2`: a point or an offset, in logical or in screen space.
#[verifier::external_type_specification]
#[verifier::external_body]
pub struct ExVec2(glam::Vec2);

/// `glam::BVec2`: the outcome of comparing two vectors component by component.
#[verifier::external_type_specification]
#[verifier::external_body]
pub struct ExBVec2(glam::BVec2);

/// `Vec2::clone`, which `glam` derives for a type that is `Copy`: the clone is
/// the vector itself.
pub assume_specification[ <glam::Vec2 as Clone>::clone ](v: &glam::Vec2) -> (r: glam::Vec2)
    ensures
        r == *v,
;

/// The vector that `Vec2::new` makes of the two integers, each turned into a
/// float without loss.
pub uninterp spec fn vec2_of_ints(x: i16, y: i16) -> Vec2;

/// What `Vec2 + Vec2` gives.
pub uninterp spec fn vec2_sum(a: Vec2, b: Vec2) -> Vec2;

/// What `Vec2 - Vec2` gives.
pub uninterp spec fn vec2_difference(a: Vec2, b: Vec2) -> Vec2;

/// What `Vec2 * Vec2` gives: the product component by component.
pub uninterp spec fn vec2_product(a: Vec2, b: Vec2) -> Vec2;

/// What `Vec2 / Vec2` gives: the quotient component by component.
pub uninterp spec fn vec2_quotient(a: Vec2, b: Vec2) -> Vec2;

/// What `-Vec2` gives.
pub uninterp spec fn vec2_negation(a: Vec2) -> Vec2;

/// What `Vec2::recip` gives: one over each component.
pub uninterp spec fn vec2_reciprocal(a: Vec2) -> Vec2;

/// What `Vec2::min` gives: the smaller of the two in each component.
pub uninterp spec fn vec2_min(a: Vec2, b: Vec2) -> Vec2;

/// What `Vec2::max` gives: the larger of the two in each component.
pub uninterp spec fn vec2_max(a: Vec2, b: Vec2) -> Vec2;

/// What `Vec2::cmplt` gives: for each component, whether `a`'s is less than `b`'s.
pub uninterp spec fn vec2_less_mask(a: Vec2, b: Vec2) -> BVec2;

/// What `BVec2::all` gives: whether both components of the mask are set.
pub uninterp spec fn mask_all(m: BVec2) -> bool;

/// The origin, `(0, 0)`.
pub open spec fn vec2_zero() -> Vec2 {
    vec2_of_ints(0, 0)
}

/// The vector `(1, 1)`.
pub open spec fn vec2_one() -> Vec2 {
    vec2_of_ints(1, 1)
}

/// Whether `a` is less than `b` in both components.
pub open spec fn vec2_all_less(a: Vec2, b: Vec2) -> bool {
    mask_all(vec2_less_mask(a, b))
}

/// Whether `p` lies inside the box whose corners are `lo` and `hi`, its
/// border left out.
pub open spec fn vec2_strictly_between(lo: Vec2, p: Vec2, hi: Vec2) -> bool {
    vec2_all_less(lo, p) && vec2_all_less(p, hi)
}

/// Calls `glam::Vec2::new` on the two integers, converted to floats by std's
/// lossless `From<i16>`. The result is the one that [`vec2_of_ints`] names.
#[verifier::external_body]
pub(crate) fn vec2_from_ints(x: i16, y: i16) -> (r: Vec2)
    ensures
        r == vec2_of_ints(x, y),
{
    glam::Vec2::new(x.into(), y.into())
}

/// Calls glam's `Vec2 + Vec2`. The result is the one that [`vec2_sum`] names.
#[verifier::external_body]
pub(crate) fn vec2_add(a: Vec2, b: Vec2) -> (r: Vec2)
    ensures
        r == vec2_sum(a, b),
{
    a + b
}

/// Calls glam's `Vec2 - Vec2`. The result is the one that [`vec2_difference`] names.
#[verifier::external_body]
pub(crate) fn vec2_sub(a: Vec2, b: Vec2) -> (r: Vec2)
    ensures
        r == vec2_difference(a, b),
{
    a - b
}

/// Calls glam's `Vec2 * Vec2`. The result is the one that [`vec2_product`] names.
#[verifier::external_body]
pub(crate) fn vec2_mul(a: Vec2, b: Vec2) -> (r: Vec2)
    ensures
        r == vec2_product(a, b),
{
    a * b
}

/// Calls glam's `Vec2 / Vec2`. The result is the one that [`vec2_quotient`] names.
#[verifier::external_body]
pub(crate) fn vec2_div(a: Vec2, b: Vec2) -> (r: Vec2)
    ensures
        r == vec2_quotient(a, b),
{
    a / b
}

/// Calls glam's `-Vec2`. The result is the one that [`vec2_negation`] names.
#[verifier::external_body]
pub(crate) fn vec2_neg(a: Vec2) -> (r: Vec2)
    ensures
        r == vec2_negation(a),
{
    -a
}

/// Calls `glam::Vec2::recip`. The result is the one that [`vec2_reciprocal`] names.
#[verifier::external_body]
pub(crate) fn vec2_recip(a: Vec2) -> (r: Vec2)
    ensures
        r == vec2_reciprocal(a),
{
    a.recip()
}

/// Calls `glam::Vec2::min`. The result is the one that [`vec2_min`] names.
#[verifier::external_body]
pub(crate) fn vec2_lower(a: Vec2, b: Vec2) -> (r: Vec2)
    ensures
        r == vec2_min(a, b),
{
    a.min(b)
}

/// Calls `glam::Vec2::max`. The result is the one that [`vec2_max`] names.
#[verifier::external_body]
pub(crate) fn vec2_upper(a: Vec2, b: Vec2) -> (r: Vec2)
    ensures
        r == vec2_max(a, b),
{
    a.max(b)
}

/// Calls `glam::Vec2::cmplt`. The result is the one that [`vec2_less_mask`] names.
#[verifier::external_body]
pub(crate) fn vec2_less_than(a: Vec2, b: Vec2) -> (r: BVec2)
    ensures
        r == vec2_less_mask(a, b),
{
    a.cmplt(b)
}

/// Calls `glam::BVec2::all`. The result is the one that [`mask_all`] names.
#[verifier::external_body]
pub(crate) fn mask_is_all(m: BVec2) -> (r: bool)
    ensures
        r == mask_all(m),
{
    m.all()
}

/// Tells whether `p` lies inside the box from `lo` to `hi`, its border left out.
pub fn strictly_between(lo: Vec2, p: Vec2, hi: Vec2) -> (r: bool)
    ensures
        r == vec2_strictly_between(lo, p, hi),
{
    mask_is_all(vec2_less_than(lo, p)) && mask_is_all(vec2_less_than(p, hi))
}

} // verus!
