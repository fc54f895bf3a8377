//! The description of a scene and of a camera, and the test that rejects a
//! degenerate one before any ray is traced.

use vstd::prelude::*;
use crate::materials::Material;
use crate::scalar::Scalar;
use crate::util::Vec3;

verus! {

/// A sphere.  The radius may be negative: the sphere is then hollow, with
/// its normals pointing inward.
#[derive(Clone, Copy, Debug, PartialEq, Eq, Structural)]
pub struct Sphere {
    pub radius: Scalar,
    pub center: Vec3,
    pub material: Material,
}

/// Why a configuration is rejected.
#[derive(Clone, Copy, Debug, PartialEq, Eq, Structural)]
pub enum ConfigError {
    /// The scene has no sphere.
    EmptyScene,
    /// The sphere at `member` has radius zero.
    ZeroRadius { member: usize },
    /// The metal of the sphere at `member` has a fuzz outside `[0, 1]`.
    FuzzOutOfRange { member: usize },
    /// The camera looks from the point that it looks at.
    NoViewDirection,
    /// The camera's up vector is zero or along the view direction.
    NoUpDirection,
}

impl ConfigError {
    /// What the error says, in words.
    pub open spec fn description(self) -> Seq<char> {
        match self {
            ConfigError::EmptyScene => "the scene holds no sphere"@,
            ConfigError::ZeroRadius { .. } => "a sphere has radius zero"@,
            ConfigError::FuzzOutOfRange { .. } => "a metal has a fuzz outside 0 to 1"@,
            ConfigError::NoViewDirection => "the camera looks from the point it looks at"@,
            ConfigError::NoUpDirection => "the camera's up vector gives no direction"@,
        }
    }

    /// The member of the scene that the error is about, if it is about one.
    pub open spec fn about(self) -> Option<usize> {
        match self {
            ConfigError::ZeroRadius { member } => Some(member),
            ConfigError::FuzzOutOfRange { member } => Some(member),
            _ => None,
        }
    }

    pub fn message(&self) -> (text: String)
        ensures
            text@ == self.description(),
    {
        match self {
            ConfigError::EmptyScene => "the scene holds no sphere".to_owned(),
            ConfigError::ZeroRadius { .. } => "a sphere has radius zero".to_owned(),
            ConfigError::FuzzOutOfRange { .. } => "a metal has a fuzz outside 0 to 1".to_owned(),
            ConfigError::NoViewDirection => "the camera looks from the point it looks at".to_owned(),
            ConfigError::NoUpDirection => "the camera's up vector gives no direction".to_owned(),
        }
    }

    pub fn member(&self) -> (m: Option<usize>)
        ensures
            m == self.about(),
    {
        match self {
            ConfigError::ZeroRadius { member } => Some(*member),
            ConfigError::FuzzOutOfRange { member } => Some(*member),
            _ => None,
        }
    }
}

/// `0 <= s <= 1`.
pub open spec fn in_unit_interval(s: Scalar) -> bool {
    Scalar::zero().at_most(s) && s.at_most(Scalar::one())
}

/// `s` can be the length of a basis vector before it is normalized: it is
/// finite and above zero.
pub open spec fn usable_length(s: Scalar) -> bool {
    s.is_finite() && Scalar::zero().less(s)
}

impl Sphere {
    /// The radius is zero, of either sign.
    pub open spec fn zero_radius(self) -> bool {
        self.radius.equals(Scalar::zero())
    }

    /// The material is a metal whose fuzz is not in `[0, 1]`.
    pub open spec fn bad_fuzz(self) -> bool {
        self.material matches Material::Metal(m) && !in_unit_interval(m.fuzz)
    }

    /// What is wrong with this sphere, standing at `member`, if anything.
    pub open spec fn fault(self, member: usize) -> Option<ConfigError> {
        if self.zero_radius() {
            Some(ConfigError::ZeroRadius { member })
        } else if self.bad_fuzz() {
            Some(ConfigError::FuzzOutOfRange { member })
        } else {
            None
        }
    }

    pub fn new(center: Vec3, radius: Scalar, material: Material) -> (s: Sphere)
        ensures
            s == (Sphere { radius, center, material }),
    {
        Sphere { radius, center, material }
    }

    /// Tests this sphere, standing at `member`.
    pub fn validate(&self, member: usize) -> (r: Result<(), ConfigError>)
        ensures
            r == match self.fault(member) {
                Some(e) => Err::<(), ConfigError>(e),
                None => Ok(()),
            },
    {
        if self.radius.same(Scalar::zero()) {
            return Err(ConfigError::ZeroRadius { member });
        }
        match self.material {
            Material::Metal(m) => {
                if !(m.fuzz.ge(Scalar::zero()) && m.fuzz.le(Scalar::one())) {
                    return Err(ConfigError::FuzzOutOfRange { member });
                }
            },
            _ => {},
        }
        Ok(())
    }
}

/// The first fault among the first `n` spheres.
pub open spec fn first_fault(spheres: Seq<Sphere>, n: nat) -> Option<ConfigError>
    decreases n,
{
    if n == 0 {
        None
    } else {
        match first_fault(spheres, (n - 1) as nat) {
            Some(e) => Some(e),
            None => spheres[n - 1].fault((n - 1) as usize),
        }
    }
}

/// Tests a scene: it must hold a sphere, and each sphere must pass.  The
/// error is that of the first sphere that does not.
pub fn validate(spheres: &Vec<Sphere>) -> (r: Result<(), ConfigError>)
    ensures
        spheres.len() == 0 ==> r == Err::<(), ConfigError>(ConfigError::EmptyScene),
        spheres.len() > 0 ==> r == match first_fault(spheres@, spheres@.len()) {
            Some(e) => Err::<(), ConfigError>(e),
            None => Ok(()),
        },
        r is Ok <==> spheres.len() > 0 && forall|i: int|
            0 <= i < spheres.len() ==> (#[trigger] spheres[i]).fault(i as usize) is None,
{
    if spheres.len() == 0 {
        return Err(ConfigError::EmptyScene);
    }
    let mut i: usize = 0;
    while i < spheres.len()
        invariant
            i <= spheres.len(),
            first_fault(spheres@, i as nat) is None,
            forall|k: int| 0 <= k < i ==> (#[trigger] spheres[k]).fault(k as usize) is None,
        decreases spheres.len() - i,
    {
        match spheres[i].validate(i) {
            Err(e) => {
                proof {
                    lemma_first_fault_stays(spheres@, (i + 1) as nat, spheres@.len());
                }
                return Err(e);
            },
            Ok(()) => {},
        }
        i = i + 1;
    }
    Ok(())
}

/// Once a fault is found, more spheres do not change it.
pub proof fn lemma_first_fault_stays(spheres: Seq<Sphere>, n: nat, m: nat)
    requires
        n <= m,
        first_fault(spheres, n) is Some,
    ensures
        first_fault(spheres, m) == first_fault(spheres, n),
    decreases m,
{
    if n < m {
        lemma_first_fault_stays(spheres, n, (m - 1) as nat);
    }
}

/// Tests the lengths from which a camera's basis is made: that of the
/// vector from the point looked at to the point looked from, and that of
/// the cross product of the up vector with the view direction.
pub fn validate_basis(view_length: Scalar, side_length: Scalar) -> (r: Result<(), ConfigError>)
    ensures
        r == if !usable_length(view_length) {
            Err::<(), ConfigError>(ConfigError::NoViewDirection)
        } else if !usable_length(side_length) {
            Err(ConfigError::NoUpDirection)
        } else {
            Ok(())
        },
{
    if !(view_length.finite() && view_length.gt(Scalar::zero())) {
        Err(ConfigError::NoViewDirection)
    } else if !(side_length.finite() && side_length.gt(Scalar::zero())) {
        Err(ConfigError::NoUpDirection)
    } else {
        Ok(())
    }
}

} // verus!
