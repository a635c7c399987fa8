//! The decisions of the ray-sphere intersection.
//!
//! The ray meets the sphere where `a t^2 + 2 half_b t + c = 0`. The caller
//! computes the discriminant `half_b^2 - a c` and, where it is not negative,
//! the two roots; which of them counts as the hit, and which way the surface
//! faces there, is decided here.

use vstd::prelude::*;
use crate::scalar::Scalar;
use crate::scalar::rank;

verus! {

/// One of the two roots of the sphere equation.
#[derive(Clone, Copy, Debug, PartialEq, Eq, Structural)]
pub enum Root {
    /// The smaller root, where the ray enters.
    Near,
    /// The larger root, where the ray leaves.
    Far,
}

/// Whether the equation has a real root: the discriminant is not negative.
pub open spec fn has_real_root_spec(discriminant: Scalar) -> bool {
    !discriminant.is_negative_spec()
}

/// The root that counts as the hit: the smaller one where it lies in
/// `[t_min, t_max]`, else the larger one where that does, else none.
pub open spec fn chosen_root(near: Scalar, far: Scalar, t_min: Scalar, t_max: Scalar) -> Option<
    Root,
> {
    if near.within_spec(t_min, t_max) {
        Some(Root::Near)
    } else if far.within_spec(t_min, t_max) {
        Some(Root::Far)
    } else {
        None
    }
}

/// The parameter of the chosen root.
pub open spec fn root_value(near: Scalar, far: Scalar, root: Root) -> Scalar {
    match root {
        Root::Near => near,
        Root::Far => far,
    }
}

/// The sign that `dot(direction, normal)` has once the normal is stored:
/// the outward normal is kept where the ray meets the front face
/// (`dot < 0`) and negated otherwise.
pub open spec fn stored_rank(dot: Scalar) -> int {
    if dot.is_negative_spec() {
        rank(dot@)
    } else {
        -rank(dot@)
    }
}

/// Whether the sphere equation has a real root.
pub fn has_real_root(discriminant: Scalar) -> (r: bool)
    ensures
        r == has_real_root_spec(discriminant),
{
    !discriminant.is_negative()
}

/// Chooses the root that counts as the hit.
pub fn pick_root(near: Scalar, far: Scalar, t_min: Scalar, t_max: Scalar) -> (r: Option<Root>)
    ensures
        r == chosen_root(near, far, t_min, t_max),
{
    if near.within(t_min, t_max) {
        Some(Root::Near)
    } else if far.within(t_min, t_max) {
        Some(Root::Far)
    } else {
        None
    }
}

/// Whether the ray meets the surface from outside, given
/// `dot(direction, outward_normal)`. The stored normal is the outward normal
/// where this holds, and its negation otherwise.
pub fn front_face(dot: Scalar) -> (front: bool)
    ensures
        front == dot.is_negative_spec(),
{
    dot.is_negative()
}

/// A chosen root lies in the interval it was chosen for.
pub proof fn lemma_chosen_root_in_range(near: Scalar, far: Scalar, t_min: Scalar, t_max: Scalar)
    ensures
        match chosen_root(near, far, t_min, t_max) {
            Some(root) => root_value(near, far, root).within_spec(t_min, t_max),
            None => !near.within_spec(t_min, t_max) && !far.within_spec(t_min, t_max),
        },
{
}

/// The stored normal always opposes the incoming ray: after the correction
/// `dot(direction, normal) <= 0`.
pub proof fn lemma_stored_normal_opposes_ray(dot: Scalar)
    ensures
        stored_rank(dot) <= 0 || dot.is_nan_spec(),
{
}

} // verus!
