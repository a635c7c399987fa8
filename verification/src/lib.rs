//! The discrete core of an offline Monte-Carlo path tracer.
//!
//! The numerical work of a renderer is done in IEEE-754 doubles, which this
//! library does not compute with. What it holds is every decision a renderer
//! takes on such numbers (which root of the sphere equation counts, which of
//! several hits is nearest, whether a material scatters, when a path ends) and
//! the layout of the framebuffer the samples end up in. A double enters the
//! library as its 64-bit pattern, see [`scalar::Scalar`].

pub mod estimator;
pub mod framebuffer;
pub mod material;
pub mod scalar;
pub mod scene;
pub mod sphere;
pub mod tone;
