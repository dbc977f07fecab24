//! Which root of a sphere's intersection quadratic a ray query reports.
//!
//! The two roots `near <= far` of the quadratic and the bounds of the query
//! are given as order keys: integers that compare as the ray parameters
//! they stand for. For a float parameter the key is the one by which
//! `f32::total_cmp` orders it, which agrees with `<` on every value but
//! NaN and the two signed zeros.
use vstd::prelude::*;

verus! {

/// The root of the intersection quadratic that a query reports.
#[derive(Clone, Copy, Debug, PartialEq, Eq, Structural)]
pub enum Root {
    /// The smaller root: where the ray enters the sphere.
    Near,
    /// The larger root: where the ray leaves the sphere.
    Far,
}

/// The parameter `t` lies in the open interval `(t_min, t_max)`.
pub open spec fn in_range(t: int, t_min: int, t_max: int) -> bool {
    t_min < t && t < t_max
}

/// The near root is reported when it is in range; the far root only when
/// the near one is excluded and the far one is in range.
pub open spec fn root_of(near: int, far: int, t_min: int, t_max: int) -> Option<Root> {
    if in_range(near, t_min, t_max) {
        Some(Root::Near)
    } else if in_range(far, t_min, t_max) {
        Some(Root::Far)
    } else {
        None
    }
}

/// Picks the root that a query over `(t_min, t_max)` reports, preferring
/// the surface that faces the ray's origin.
pub fn pick_root(near: i32, far: i32, t_min: i32, t_max: i32) -> (r: Option<Root>)
    ensures
        r == root_of(near as int, far as int, t_min as int, t_max as int),
{
    if t_min < near && near < t_max {
        Some(Root::Near)
    } else if t_min < far && far < t_max {
        Some(Root::Far)
    } else {
        None
    }
}

} // verus!
