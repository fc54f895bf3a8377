//! The decision core of a Monte-Carlo path tracer for scenes of spheres.
//!
//! Reals cross the boundary of this crate as bit patterns (`Scalar`).  The
//! crate orders them exactly and decides with them: which root of a
//! ray-sphere quadratic is the hit, which member of a scene is nearest,
//! whether a material scatters or absorbs, when a path ends, whether a sampled
//! point is kept, which configuration is refused, which of 256 values a
//! channel is written as, and where a pixel goes in the image and in the
//! file.  The arithmetic that produces the scalars belongs to the caller.

pub mod scalar;
pub mod truncate;
pub mod util;
pub mod materials;
pub mod sampling;
pub mod integrator;
pub mod image;
pub mod ppm;
pub mod scene;
