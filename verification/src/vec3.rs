//! Three-component vectors.
use vstd::prelude::*;
use crate::scalar::{Scalar, lemma_negated_twice};

verus! {

/// A vector of three double-precision components. A plain value: every
/// operation gives a new vector.
#[derive(Clone, Copy, Debug)]
pub struct Vec3 {
    pub x: Scalar,
    pub y: Scalar,
    pub z: Scalar,
}

/// A vector that stands for a position rather than a direction.
pub type Point = Vec3;

impl Vec3 {
    /// The vector with each component's sign flipped.
    pub open spec fn negated(self) -> Vec3 {
        Vec3 { x: self.x.negated(), y: self.y.negated(), z: self.z.negated() }
    }

    /// The vector with the given components.
    pub fn new(x: Scalar, y: Scalar, z: Scalar) -> (v: Vec3)
        ensures
            v.x == x,
            v.y == y,
            v.z == z,
    {
        Vec3 { x, y, z }
    }

    /// The zero vector: three positive zeros.
    pub fn zero() -> (v: Vec3)
        ensures
            v.x.bits == 0,
            v.y.bits == 0,
            v.z.bits == 0,
    {
        Vec3 { x: Scalar::zero(), y: Scalar::zero(), z: Scalar::zero() }
    }

    /// `-self`, component by component.
    pub fn neg(self) -> (v: Vec3)
        ensures
            v == self.negated(),
    {
        Vec3 { x: self.x.neg(), y: self.y.neg(), z: self.z.neg() }
    }
}

/// Negating a vector twice gives it back, bit for bit.
pub proof fn lemma_vec3_negated_twice(v: Vec3)
    ensures
        v.negated().negated() == v,
{
    lemma_negated_twice(v.x);
    lemma_negated_twice(v.y);
    lemma_negated_twice(v.z);
}

} // verus!
