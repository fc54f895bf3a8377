//! What a surface does with a ray that hits it: scatter it, with an
//! attenuation and a new ray, or absorb it.
//!
//! The directions that a material may send a ray in, and the scalars by
//! which it chooses among them, are worked out by the caller.  This module
//! holds the choice.

use vstd::prelude::*;
use crate::scalar::Scalar;
use crate::util::{Ray, Vec3};

verus! {

/// A diffuse surface.
#[derive(Clone, Copy, Debug, PartialEq, Eq, Structural)]
pub struct Lambertian {
    pub albedo: Vec3,
}

/// A mirror, blurred by `fuzz`.
#[derive(Clone, Copy, Debug, PartialEq, Eq, Structural)]
pub struct Metal {
    pub albedo: Vec3,
    pub fuzz: Scalar,
}

/// A transparent medium with refractive index `ref_idx`.
#[derive(Clone, Copy, Debug, PartialEq, Eq, Structural)]
pub struct Dielectric {
    pub ref_idx: Scalar,
}

/// The materials.
#[derive(Clone, Copy, Debug, PartialEq, Eq, Structural)]
pub enum Material {
    Lambertian(Lambertian),
    Metal(Metal),
    Dielectric(Dielectric),
}

/// On which side of a dielectric surface a ray travels.
#[derive(Clone, Copy, Debug, PartialEq, Eq, Structural)]
pub enum Side {
    /// From outside into the medium.
    Entering,
    /// From inside the medium out.
    Exiting,
}

/// How a ray crosses a dielectric surface: against which normal it is
/// refracted, and with which ratio of refractive indices.
#[derive(Clone, Copy, Debug, PartialEq, Eq, Structural)]
pub struct Interface {
    pub side: Side,
    /// The normal on the side that the ray comes from.
    pub outward_normal: Vec3,
    /// The ratio is `1 / ref_idx` rather than `ref_idx`.
    pub invert_index: bool,
}

/// A refracted direction, the probability of reflecting instead, and a
/// uniform draw from `[0, 1)` to decide with.
#[derive(Clone, Copy, Debug, PartialEq, Eq, Structural)]
pub struct Refraction {
    pub direction: Vec3,
    pub reflect_prob: Scalar,
    pub draw: Scalar,
}

/// `s > 0`.
pub open spec fn positive(s: Scalar) -> bool {
    Scalar::zero().less(s)
}

/// `out` is the attenuation `attenuation` with the ray from `origin` along
/// `direction`.
pub open spec fn scatters_as(
    out: Option<(Vec3, Ray)>,
    attenuation: Vec3,
    origin: Vec3,
    direction: Vec3,
) -> bool {
    out matches Some(pair) && pair.0 == attenuation && pair.1.origin() == origin
        && pair.1.direction() == direction
}

impl Lambertian {
    /// Scatters always: from the hit point `origin` along `direction`, the
    /// surface normal plus a random point in the unit sphere, attenuated by
    /// the albedo.
    pub fn scatter(&self, origin: Vec3, direction: Vec3) -> (out: Option<(Vec3, Ray)>)
        ensures
            scatters_as(out, self.albedo, origin, direction),
    {
        Some((self.albedo, Ray::new(origin, direction)))
    }
}

impl Metal {
    /// Scatters along `direction`, the blurred reflection, if that points
    /// away from the surface; absorbs the ray if not.  `facing` is the dot
    /// product of `direction` and the surface normal.
    pub fn scatter(&self, origin: Vec3, direction: Vec3, facing: Scalar) -> (out: Option<
        (Vec3, Ray),
    >)
        ensures
            positive(facing) ==> scatters_as(out, self.albedo, origin, direction),
            !positive(facing) ==> out is None,
    {
        if facing.gt(Scalar::zero()) {
            Some((self.albedo, Ray::new(origin, direction)))
        } else {
            None
        }
    }
}

impl Dielectric {
    /// The direction that leaves the surface: the refracted one, unless
    /// there is none or the draw falls below the probability of reflecting.
    pub open spec fn outgoing(reflected: Vec3, refraction: Option<Refraction>) -> Vec3 {
        match refraction {
            Some(f) => if f.draw.less(f.reflect_prob) {
                reflected
            } else {
                f.direction
            },
            None => reflected,
        }
    }

    /// How a ray crosses the surface with normal `normal`.  `facing` is the
    /// dot product of the ray's direction and that normal: positive when the
    /// ray leaves the medium.  Then the normal is flipped and the index
    /// inverted; else both are taken as they are.
    pub fn interface(&self, facing: Scalar, normal: Vec3) -> (i: Interface)
        ensures
            positive(facing) ==> i == (Interface {
                side: Side::Exiting,
                outward_normal: normal.negated(),
                invert_index: true,
            }),
            !positive(facing) ==> i == (Interface {
                side: Side::Entering,
                outward_normal: normal,
                invert_index: false,
            }),
    {
        if facing.gt(Scalar::zero()) {
            Interface { side: Side::Exiting, outward_normal: normal.neg(), invert_index: true }
        } else {
            Interface { side: Side::Entering, outward_normal: normal, invert_index: false }
        }
    }

    /// Scatters always, and attenuates nothing: reflects where there is no
    /// refraction, and else reflects or refracts by the draw.
    pub fn scatter(&self, origin: Vec3, reflected: Vec3, refraction: Option<Refraction>) -> (out:
        Option<(Vec3, Ray)>)
        ensures
            scatters_as(out, Vec3::one(), origin, Self::outgoing(reflected, refraction)),
    {
        let attenuation = Vec3::one();
        let direction = match refraction {
            Some(f) => if f.draw.lt(f.reflect_prob) {
                reflected
            } else {
                f.direction
            },
            None => reflected,
        };
        Some((attenuation, Ray::new(origin, direction)))
    }
}

/// The refracted direction, if there is one: `refracted`, unless the
/// discriminant of the refraction formula is negative (total internal
/// reflection).
pub fn refract(discriminant: Scalar, refracted: Vec3) -> (r: Option<Vec3>)
    ensures
        r == if Scalar::zero().at_most(discriminant) {
            Some(refracted)
        } else {
            None
        },
{
    if discriminant.ge(Scalar::zero()) {
        Some(refracted)
    } else {
        None
    }
}

} // verus!
