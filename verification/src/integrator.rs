//! How the colour of one ray is resolved: what it sees, and whether its
//! path goes on.
//!
//! A path is a run of rays, each but the first scattered off a surface by
//! the one before.  At each ray the caller reports what happened to it, and
//! `color` says how the path ends or that it goes on one level deeper.  A
//! path that is cut off or absorbed is black; one that escapes the scene has
//! the colour of the sky, attenuated by every surface on its way.

use vstd::prelude::*;
use crate::scalar::Scalar;
use crate::util::{Hit, Hitable, HitableList, Ray, Vec3};

verus! {

/// The depth from which on a scattered ray is no longer followed.
pub const MAX_DEPTH: i32 = 50;

/// Bit pattern of `0.001`: hits nearer than this along a ray are ignored, so
/// that a scattered ray does not hit the surface that it starts on.
pub const NEAR_BITS: u32 = 0x3a83_126f;

/// Bit pattern of `0.5`.
pub const HALF_BITS: u32 = 0x3f00_0000;

/// Bit pattern of `0.7`.
pub const SEVEN_TENTHS_BITS: u32 = 0x3f33_3333;

/// What happened to a ray.
#[derive(Clone, Copy, Debug, PartialEq, Eq, Structural)]
pub enum Event {
    /// It hit nothing.
    Escaped,
    /// It hit a surface whose material absorbed it.
    Absorbed,
    /// It hit a surface whose material scattered it, with this attenuation
    /// and along this ray.
    Scattered { attenuation: Vec3, ray: Ray },
}

/// What a ray contributes.
#[derive(Clone, Copy, Debug, PartialEq, Eq, Structural)]
pub enum Outcome {
    /// The sky gradient along the ray's direction.
    Sky,
    /// Nothing.
    Black,
    /// The attenuation times the colour of the scattered ray, which is
    /// traced at `depth`.
    Bounce { attenuation: Vec3, ray: Ray, depth: i32 },
}

impl Event {
    /// What happened to a ray that hit a surface, given what the surface's
    /// material made of it.
    pub open spec fn of_scatter(scattered: Option<(Vec3, Ray)>) -> Event {
        match scattered {
            Some(pair) => Event::Scattered { attenuation: pair.0, ray: pair.1 },
            None => Event::Absorbed,
        }
    }

    /// The ray hit a surface.
    pub open spec fn is_hit(self) -> bool {
        self != Event::Escaped
    }

    pub fn at_surface(scattered: Option<(Vec3, Ray)>) -> (event: Event)
        ensures
            event == Self::of_scatter(scattered),
    {
        match scattered {
            Some(pair) => Event::Scattered { attenuation: pair.0, ray: pair.1 },
            None => Event::Absorbed,
        }
    }
}

/// The rule of `color`.
pub open spec fn resolve(depth: i32, event: Event) -> Outcome {
    match event {
        Event::Escaped => Outcome::Sky,
        Event::Absorbed => Outcome::Black,
        Event::Scattered { attenuation, ray } => if depth < MAX_DEPTH {
            Outcome::Bounce { attenuation, ray, depth: (depth + 1) as i32 }
        } else {
            Outcome::Black
        },
    }
}

/// The number of times a path that starts at `depth` bounces when its rays
/// meet `events` in turn.
pub open spec fn bounces(depth: i32, events: Seq<Event>) -> nat
    decreases events.len(),
{
    if events.len() == 0 {
        0
    } else {
        match resolve(depth, events[0]) {
            Outcome::Bounce { depth: deeper, .. } => 1 + bounces(deeper, events.drop_first()),
            _ => 0,
        }
    }
}

/// `0.001`.
pub open spec fn spec_near() -> Scalar {
    Scalar { bits: NEAR_BITS }
}

/// The lower end of the window in which a ray looks for a hit.
#[verifier::when_used_as_spec(spec_near)]
pub fn near() -> (s: Scalar)
    ensures
        s == spec_near(),
{
    Scalar::from_bits(NEAR_BITS)
}

/// The colour of the sky straight up, `(0.5, 0.7, 1.0)`.  Straight down it
/// is white, and between the two it is graded by the height of the ray's
/// direction.
pub fn sky_blue() -> (c: Vec3)
    ensures
        c == (Vec3 {
            x: Scalar { bits: HALF_BITS },
            y: Scalar { bits: SEVEN_TENTHS_BITS },
            z: Scalar::one(),
        }),
{
    Vec3::new(Scalar::from_bits(HALF_BITS), Scalar::from_bits(SEVEN_TENTHS_BITS), Scalar::one())
}

/// The hit that a ray sees in a scene: the nearest one beyond `0.001` along
/// the ray, and short of the largest finite scalar.
pub fn first_hit(world: &HitableList) -> (r: Option<Hit>)
    ensures
        r == world.nearest(near(), Scalar::max_finite()),
        HitableList::is_nearest(world.list@, near(), Scalar::max_finite(), world.list@.len(), r),
{
    world.hit(near(), Scalar::max_finite())
}

/// What a ray at `depth` contributes, given what happened to it.
pub fn color(depth: i32, event: Event) -> (outcome: Outcome)
    ensures
        outcome == resolve(depth, event),
{
    match event {
        Event::Escaped => Outcome::Sky,
        Event::Absorbed => Outcome::Black,
        Event::Scattered { attenuation, ray } => if depth < MAX_DEPTH {
            Outcome::Bounce { attenuation, ray, depth: depth + 1 }
        } else {
            Outcome::Black
        },
    }
}

/// From `MAX_DEPTH` on, a ray that hits a surface is black, whatever the
/// surface made of it; below `MAX_DEPTH`, a scattered ray is followed one
/// level deeper.
pub proof fn lemma_cutoff(depth: i32, event: Event)
    requires
        event.is_hit(),
    ensures
        depth >= MAX_DEPTH ==> resolve(depth, event) == Outcome::Black,
        depth < MAX_DEPTH ==> (event matches Event::Scattered { attenuation, ray } ==> resolve(
            depth,
            event,
        ) == (Outcome::Bounce { attenuation, ray, depth: (depth + 1) as i32 })),
{
}

/// A path bounces at most `MAX_DEPTH - depth` times, whatever its rays
/// meet, and not at all from `MAX_DEPTH` on.
pub proof fn lemma_path_is_bounded(depth: i32, events: Seq<Event>)
    ensures
        depth <= MAX_DEPTH ==> bounces(depth, events) <= MAX_DEPTH - depth,
        depth >= MAX_DEPTH ==> bounces(depth, events) == 0,
    decreases events.len(),
{
    if events.len() > 0 && depth < MAX_DEPTH {
        lemma_path_is_bounded((depth + 1) as i32, events.drop_first());
    }
}

} // verus!
