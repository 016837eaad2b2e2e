//! The ray primitive.
use vstd::prelude::*;
use crate::vec3::{Point, Vec3};

verus! {

/// A line through `origin` along `direction`. The direction need not have
/// unit length, and may even be zero: such a ray never leaves its origin.
#[derive(Clone, Copy)]
pub struct Ray {
    pub origin: Point,
    pub direction: Vec3,
}

impl Ray {
    /// The ray from `origin` along `direction`.
    pub fn new(origin: Point, direction: Vec3) -> (r: Ray)
        ensures
            r.origin == origin,
            r.direction == direction,
    {
        Ray { origin, direction }
    }
}

} // verus!
