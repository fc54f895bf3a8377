//! Rays, and what a ray hits: one sphere, or the nearest of a list of them.
//!
//! Where a ray `origin + t * direction` meets a sphere is the solution of a
//! quadratic in `t`.  The caller solves it; a `Crossing` holds the solution,
//! and this module decides from it whether there is a hit inside a window of
//! `t` and which of the two roots it is.

use vstd::prelude::*;
use crate::scalar::Scalar;

verus! {

/// Three scalars: a position, a direction or a colour.
#[derive(Clone, Copy, Debug, PartialEq, Eq, Structural)]
pub struct Vec3 {
    pub x: Scalar,
    pub y: Scalar,
    pub z: Scalar,
}

impl Vec3 {
    /// `(0, 0, 0)`: the origin, and black.
    pub open spec fn spec_zero() -> Vec3 {
        Vec3 {
            x: Scalar::zero(),
            y: Scalar::zero(),
            z: Scalar::zero(),
        }
    }

    /// `(1, 1, 1)`: white, the colour that attenuates nothing.
    pub open spec fn spec_one() -> Vec3 {
        Vec3 {
            x: Scalar::one(),
            y: Scalar::one(),
            z: Scalar::one(),
        }
    }

    /// The opposite vector.
    pub open spec fn negated(self) -> Vec3 {
        Vec3 { x: self.x.negated(), y: self.y.negated(), z: self.z.negated() }
    }

    pub fn new(x: Scalar, y: Scalar, z: Scalar) -> (v: Vec3)
        ensures
            v == (Vec3 { x, y, z }),
    {
        Vec3 { x, y, z }
    }

    #[verifier::when_used_as_spec(spec_zero)]
    pub fn zero() -> (v: Vec3)
        ensures
            v == Self::spec_zero(),
    {
        Vec3 { x: Scalar::zero(), y: Scalar::zero(), z: Scalar::zero() }
    }

    #[verifier::when_used_as_spec(spec_one)]
    pub fn one() -> (v: Vec3)
        ensures
            v == Self::spec_one(),
    {
        Vec3 { x: Scalar::one(), y: Scalar::one(), z: Scalar::one() }
    }

    /// The opposite vector: each component with its sign flipped.
    pub fn neg(self) -> (v: Vec3)
        ensures
            v == self.negated(),
    {
        Vec3 { x: self.x.neg(), y: self.y.neg(), z: self.z.neg() }
    }
}

/// The line `origin + t * direction`.
#[derive(Clone, Copy, Debug, PartialEq, Eq, Structural)]
pub struct Ray {
    origin: Vec3,
    direction: Vec3,
}

impl Ray {
    pub closed spec fn spec_origin(&self) -> Vec3 {
        self.origin
    }

    pub closed spec fn spec_direction(&self) -> Vec3 {
        self.direction
    }

    pub fn new(a: Vec3, b: Vec3) -> (ray: Ray)
        ensures
            ray.spec_origin() == a,
            ray.spec_direction() == b,
    {
        Ray { origin: a, direction: b }
    }

    #[verifier::when_used_as_spec(spec_direction)]
    pub fn direction(&self) -> (d: Vec3)
        ensures
            d == self.spec_direction(),
    {
        self.direction
    }

    #[verifier::when_used_as_spec(spec_origin)]
    pub fn origin(&self) -> (o: Vec3)
        ensures
            o == self.spec_origin(),
    {
        self.origin
    }
}

/// Two rays with the same origin and direction are the same ray.
pub proof fn lemma_ray_extensional(a: Ray, b: Ray)
    requires
        a.origin() == b.origin(),
        a.direction() == b.direction(),
    ensures
        a == b,
{
}

/// `t` lies strictly between `t_min` and `t_max`.  False when any of the
/// three is NaN.
pub open spec fn inside(t: Scalar, t_min: Scalar, t_max: Scalar) -> bool {
    t_min.less(t) && t.less(t_max)
}

/// A hit: the ray parameter at which it happens, and which member of the
/// thing queried was struck (0 for a single object).
#[derive(Clone, Copy, Debug, PartialEq, Eq, Structural)]
pub struct Hit {
    pub t: Scalar,
    pub member: usize,
}

/// Something a ray can hit.  The ray is fixed; a query asks for the hit
/// inside a window of `t`.
pub trait Hitable {
    /// The hit that a query for the window `(t_min, t_max)` reports.
    spec fn nearest(&self, t_min: Scalar, t_max: Scalar) -> Option<Hit>;

    fn hit(&self, t_min: Scalar, t_max: Scalar) -> (r: Option<Hit>)
        ensures
            r == self.nearest(t_min, t_max),
    ;
}

/// The solution of the quadratic `a t^2 + b t + c = 0` of one ray and one
/// sphere: its discriminant `b^2 - 4ac` and the two roots
/// `(-b - sqrt(discriminant)) / 2a` and `(-b + sqrt(discriminant)) / 2a`.
#[derive(Clone, Copy, Debug, PartialEq, Eq, Structural)]
pub struct Crossing {
    pub discriminant: Scalar,
    pub minus: Scalar,
    pub plus: Scalar,
}

impl Crossing {
    /// The quadratic has real roots: the discriminant is not negative.
    pub open spec fn solvable(self) -> bool {
        Scalar::zero().at_most(self.discriminant)
    }

    /// `minus` is not above `plus`.  This holds of every solution computed
    /// for a ray whose direction has a positive squared length.
    pub open spec fn ordered(self) -> bool {
        self.minus.is_nan() || self.plus.is_nan() || self.minus.key() <= self.plus.key()
    }

    /// `t` is a root of a real quadratic.
    pub open spec fn has_root(self, t: Scalar) -> bool {
        self.solvable() && (t == self.minus || t == self.plus)
    }

    /// The root that counts as the hit in a window: `minus` if it is inside,
    /// else `plus` if that is, else none; and none without real roots.
    pub open spec fn accepted(self, t_min: Scalar, t_max: Scalar) -> Option<Scalar> {
        if !self.solvable() {
            None
        } else if inside(self.minus, t_min, t_max) {
            Some(self.minus)
        } else if inside(self.plus, t_min, t_max) {
            Some(self.plus)
        } else {
            None
        }
    }

    pub fn new(discriminant: Scalar, minus: Scalar, plus: Scalar) -> (c: Crossing)
        ensures
            c == (Crossing { discriminant, minus, plus }),
    {
        Crossing { discriminant, minus, plus }
    }
}

impl Hitable for Crossing {
    open spec fn nearest(&self, t_min: Scalar, t_max: Scalar) -> Option<Hit> {
        match self.accepted(t_min, t_max) {
            Some(t) => Some(Hit { t, member: 0 }),
            None => None,
        }
    }

    fn hit(&self, t_min: Scalar, t_max: Scalar) -> (r: Option<Hit>) {
        if !Scalar::zero().le(self.discriminant) {
            return None;
        }
        if self.minus.lt(t_max) && self.minus.gt(t_min) {
            return Some(Hit { t: self.minus, member: 0 });
        }
        if self.plus.lt(t_max) && self.plus.gt(t_min) {
            return Some(Hit { t: self.plus, member: 0 });
        }
        None
    }
}

/// The accepted root is a root inside the window, and where the roots are
/// ordered no root inside the window is below it.
pub proof fn lemma_accepted_is_least(c: Crossing, t_min: Scalar, t_max: Scalar)
    ensures
        c.accepted(t_min, t_max) matches Some(t) ==> c.has_root(t) && inside(t, t_min, t_max),
        c.accepted(t_min, t_max) is None ==> forall|x: Scalar|
            c.has_root(x) ==> !inside(x, t_min, t_max),
        c.ordered() ==> forall|x: Scalar|
            c.has_root(x) && inside(x, t_min, t_max) ==> c.accepted(t_min, t_max).unwrap().key()
                <= x.key(),
{
}

/// A hit in a window that starts at zero or above lies ahead on the ray:
/// its `t` is positive.
pub proof fn lemma_hit_is_ahead(c: Crossing, t_min: Scalar, t_max: Scalar)
    requires
        Scalar::zero().at_most(t_min),
    ensures
        c.nearest(t_min, t_max) matches Some(h) ==> Scalar::zero().less(h.t) && h.t.less(
            t_max,
        ),
{
}

/// Without real roots there is no hit, whatever the window.
pub proof fn lemma_miss(c: Crossing, t_min: Scalar, t_max: Scalar)
    requires
        !c.solvable(),
    ensures
        c.nearest(t_min, t_max) is None,
{
}

/// A scene: the crossings of one ray with each of its spheres, in the order in
/// which the scene lists them.
pub struct HitableList {
    pub list: Vec<Crossing>,
}

impl HitableList {
    /// What a scan of the first `n` members reports.  The scan keeps the
    /// closest hit so far and asks each member only for a hit closer than
    /// that one.
    pub open spec fn scan(list: Seq<Crossing>, t_min: Scalar, t_max: Scalar, n: nat) -> Option<Hit>
        decreases n,
    {
        if n == 0 {
            None
        } else {
            let before = Self::scan(list, t_min, t_max, (n - 1) as nat);
            let closest_so_far = match before {
                Some(h) => h.t,
                None => t_max,
            };
            match list[n - 1].accepted(t_min, closest_so_far) {
                Some(t) => Some(Hit { t, member: (n - 1) as usize }),
                None => before,
            }
        }
    }

    /// `r` is the nearest hit among the first `n` members in the window
    /// `(t_min, t_max)`.  There is none exactly if no member has one.  Else
    /// it is a root of the member it names, inside the window; no member's
    /// own hit is below it, and no earlier member's is as low; and where
    /// that member's roots are ordered, it is that member's own hit.
    pub open spec fn is_nearest(
        list: Seq<Crossing>,
        t_min: Scalar,
        t_max: Scalar,
        n: nat,
        r: Option<Hit>,
    ) -> bool {
        &&& r is None <==> forall|i: int|
            0 <= i < n ==> (#[trigger] list[i]).accepted(t_min, t_max) is None
        &&& r matches Some(h) ==> {
            &&& h.member < n
            &&& list[h.member as int].has_root(h.t)
            &&& inside(h.t, t_min, t_max)
            &&& list[h.member as int].ordered() ==> list[h.member as int].accepted(t_min, t_max)
                == Some(h.t)
            &&& forall|i: int|
                0 <= i < n && (#[trigger] list[i]).accepted(t_min, t_max) is Some ==> {
                    let t = list[i].accepted(t_min, t_max).unwrap();
                    h.t.key() <= t.key() && (i < h.member ==> h.t.key() < t.key())
                }
        }
    }

    pub fn new(list: Vec<Crossing>) -> (scene: HitableList)
        ensures
            scene.list == list,
    {
        HitableList { list }
    }
}

/// The scan finds the nearest hit.
pub proof fn lemma_scan_is_nearest(list: Seq<Crossing>, t_min: Scalar, t_max: Scalar, n: nat)
    requires
        n <= list.len(),
        n <= usize::MAX,
    ensures
        HitableList::is_nearest(list, t_min, t_max, n, HitableList::scan(list, t_min, t_max, n)),
    decreases n,
{
    if n > 0 {
        lemma_scan_is_nearest(list, t_min, t_max, (n - 1) as nat);
        let before = HitableList::scan(list, t_min, t_max, (n - 1) as nat);
        match before {
            Some(b) => {
                assert(list[b.member as int].accepted(t_min, t_max) is Some);
            },
            None => {},
        }
    }
}

/// The nearest hit does not depend on the order in which a scene lists its
/// members: two scenes with the same members, roots ordered, both report a hit
/// or both report none, and the two hits are equally far along the ray.
pub proof fn lemma_order_independent(
    a: Seq<Crossing>,
    b: Seq<Crossing>,
    t_min: Scalar,
    t_max: Scalar,
)
    requires
        a.to_multiset() == b.to_multiset(),
        a.len() <= usize::MAX,
        forall|i: int| 0 <= i < a.len() ==> (#[trigger] a[i]).ordered(),
    ensures
        HitableList::scan(a, t_min, t_max, a.len()) is Some <==> HitableList::scan(
            b,
            t_min,
            t_max,
            b.len(),
        ) is Some,
        HitableList::scan(a, t_min, t_max, a.len()) is Some ==> HitableList::scan(
            a,
            t_min,
            t_max,
            a.len(),
        ).unwrap().t.key() == HitableList::scan(b, t_min, t_max, b.len()).unwrap().t.key(),
{
    a.to_multiset_ensures();
    b.to_multiset_ensures();
    lemma_scan_is_nearest(a, t_min, t_max, a.len());
    lemma_scan_is_nearest(b, t_min, t_max, b.len());
    assert forall|i: int| 0 <= i < a.len() implies b.contains(#[trigger] a[i]) by {
        assert(a.contains(a[i]));
        assert(a.to_multiset().count(a[i]) > 0);
        assert(b.to_multiset().count(a[i]) > 0);
    }
    assert forall|j: int| 0 <= j < b.len() implies a.contains(#[trigger] b[j]) by {
        assert(b.contains(b[j]));
        assert(b.to_multiset().count(b[j]) > 0);
        assert(a.to_multiset().count(b[j]) > 0);
    }
    let ra = HitableList::scan(a, t_min, t_max, a.len());
    let rb = HitableList::scan(b, t_min, t_max, b.len());
    if let Some(ha) = ra {
        let j = choose|j: int| 0 <= j < b.len() && b[j] == a[ha.member as int];
        assert(b[j].accepted(t_min, t_max) == Some(ha.t));
    }
    if let Some(hb) = rb {
        let i = choose|i: int| 0 <= i < a.len() && a[i] == b[hb.member as int];
        assert(a[i].ordered());
        assert(a[i].accepted(t_min, t_max) == Some(hb.t));
    }
}

impl Hitable for HitableList {
    open spec fn nearest(&self, t_min: Scalar, t_max: Scalar) -> Option<Hit> {
        Self::scan(self.list@, t_min, t_max, self.list@.len())
    }

    fn hit(&self, t_min: Scalar, t_max: Scalar) -> (r: Option<Hit>)
        ensures
            Self::is_nearest(self.list@, t_min, t_max, self.list@.len(), r),
    {
        let mut closest_so_far = t_max;
        let mut result: Option<Hit> = None;
        let mut i: usize = 0;
        while i < self.list.len()
            invariant
                i <= self.list.len(),
                result == Self::scan(self.list@, t_min, t_max, i as nat),
                closest_so_far == match result {
                    Some(h) => h.t,
                    None => t_max,
                },
            decreases self.list.len() - i,
        {
            match self.list[i].hit(t_min, closest_so_far) {
                Some(hit) => {
                    closest_so_far = hit.t;
                    result = Some(Hit { t: hit.t, member: i });
                },
                None => {},
            }
            i = i + 1;
        }
        proof {
            lemma_scan_is_nearest(self.list@, t_min, t_max, self.list@.len());
        }
        result
    }
}

} // verus!
