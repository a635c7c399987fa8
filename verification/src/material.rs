//! The decisions of the three materials: where a diffuse surface falls back
//! to its normal, whether a metal absorbs, whether a dielectric reflects.

use vstd::prelude::*;
use crate::scalar::Scalar;
use crate::scalar::rank;
use crate::scalar::nan;
use crate::scalar::magnitude;
use crate::scalar::EPSILON_BITS;
use crate::scalar::ONE_BITS;

verus! {

/// The direction in which a diffuse surface sends the ray on.
#[derive(Clone, Copy, Debug, PartialEq, Eq, Structural)]
pub enum Diffuse {
    /// The normal plus the random unit vector.
    Sum,
    /// The bare normal: the sum has vanished.
    Normal,
}

/// What a dielectric does with the ray.
#[derive(Clone, Copy, Debug, PartialEq, Eq, Structural)]
pub enum Bend {
    /// The ray is mirrored at the surface.
    Reflect,
    /// The ray passes through, bent by Snell's law.
    Refract,
}

/// Whether a component has vanished: its absolute value is below `1.0e-8`.
pub open spec fn vanished(c: Scalar) -> bool {
    !nan(c@) && magnitude(c@) < EPSILON_BITS
}

/// Whether all three components of a vector have vanished.
pub open spec fn near_zero_spec(x: Scalar, y: Scalar, z: Scalar) -> bool {
    vanished(x) && vanished(y) && vanished(z)
}

/// The direction of a diffuse bounce, given the sum of the normal and the
/// random unit vector.
pub open spec fn diffuse_spec(x: Scalar, y: Scalar, z: Scalar) -> Diffuse {
    if near_zero_spec(x, y, z) {
        Diffuse::Normal
    } else {
        Diffuse::Sum
    }
}

/// Whether a metal sends the ray on: the fuzzed reflection still points away
/// from the surface, `dot(outgoing, normal) > 0`.
pub open spec fn metal_scatters_spec(dot: Scalar) -> bool {
    dot.is_positive_spec()
}

/// Whether refraction is impossible: `refraction_ratio * sin_theta > 1`.
pub open spec fn cannot_refract(ratio_sin: Scalar) -> bool {
    !nan(ratio_sin@) && rank(ratio_sin@) > ONE_BITS
}

/// What a dielectric does: it reflects where refraction is impossible or
/// where the uniform draw falls below the reflectance, and refracts otherwise.
pub open spec fn dielectric_spec(ratio_sin: Scalar, draw: Scalar, reflectance: Scalar) -> Bend {
    if cannot_refract(ratio_sin) || draw.lt_spec(reflectance) {
        Bend::Reflect
    } else {
        Bend::Refract
    }
}

/// Whether all three components of a vector are below `1.0e-8` in magnitude.
pub fn near_zero(x: Scalar, y: Scalar, z: Scalar) -> (r: bool)
    ensures
        r == near_zero_spec(x, y, z),
{
    let eps = Scalar::from_bits(EPSILON_BITS);
    x.abs().lt(eps) && y.abs().lt(eps) && z.abs().lt(eps)
}

/// The direction of a diffuse bounce: the sum, or the bare normal where the
/// sum is near zero. A diffuse surface always scatters.
pub fn diffuse_direction(x: Scalar, y: Scalar, z: Scalar) -> (d: Diffuse)
    ensures
        d == diffuse_spec(x, y, z),
{
    if near_zero(x, y, z) {
        Diffuse::Normal
    } else {
        Diffuse::Sum
    }
}

/// Whether a metal sends the ray on, given `dot(outgoing, normal)`; where it
/// does not, the ray is absorbed.
pub fn metal_scatters(dot: Scalar) -> (r: bool)
    ensures
        r == metal_scatters_spec(dot),
{
    dot.is_positive()
}

/// What a dielectric does with the ray, given `refraction_ratio * sin_theta`,
/// the uniform draw and the reflectance. A dielectric always scatters.
pub fn dielectric_bend(ratio_sin: Scalar, draw: Scalar, reflectance: Scalar) -> (b: Bend)
    ensures
        b == dielectric_spec(ratio_sin, draw, reflectance),
{
    if ratio_sin.gt(Scalar::one()) || draw.lt(reflectance) {
        Bend::Reflect
    } else {
        Bend::Refract
    }
}

/// Where the random unit vector is the exact negation of the normal, their
/// sum is zero in every component, and the bounce falls back to the normal.
pub proof fn lemma_opposed_sum_falls_back(x: Scalar, y: Scalar, z: Scalar)
    requires
        rank(x@) == 0,
        rank(y@) == 0,
        rank(z@) == 0,
    ensures
        diffuse_spec(x, y, z) == Diffuse::Normal,
{
}

/// Under total internal reflection the draw does not matter.
pub proof fn lemma_total_internal_reflection(ratio_sin: Scalar, draw: Scalar, reflectance: Scalar)
    requires
        cannot_refract(ratio_sin),
    ensures
        dielectric_spec(ratio_sin, draw, reflectance) == Bend::Reflect,
{
}

} // verus!
