//! Rejection sampling: a point drawn uniformly from a cube or a square is
//! kept if it lies in the unit sphere or the unit disk, and drawn again if
//! not.  The caller draws; this module says whether a point is kept.

use vstd::prelude::*;
use crate::scalar::Scalar;

verus! {

/// A point with this squared length lies in the unit sphere: the length is
/// at most 1.
pub fn in_unit_sphere(length_squared: Scalar) -> (keep: bool)
    ensures
        keep == length_squared.at_most(Scalar::one()),
{
    length_squared.le(Scalar::one())
}

/// A point with this squared length lies in the unit disk: the length is
/// below 1.
pub fn in_unit_disk(length_squared: Scalar) -> (keep: bool)
    ensures
        keep == length_squared.less(Scalar::one()),
{
    length_squared.lt(Scalar::one())
}

} // verus!
