//! The record of one intersection.
use vstd::prelude::*;
use core::ops::Range;
use crate::scalar::{Scalar, lemma_negated_parts};
use crate::vec3::{Point, Vec3};

verus! {

/// Where and how a ray met a surface.
pub struct Hit {
    /// The point of intersection.
    pub p: Point,
    /// The surface normal at `p`, turned to face the side the ray came from.
    pub normal: Vec3,
    /// The ray parameter of the intersection.
    pub t: Scalar,
    /// Whether the ray came from the outward side of the surface.
    pub front_face: bool,
}

/// Whether `t` lies in the half-open interval from `t_range.start`, included,
/// to `t_range.end`, excluded. No NaN lies in any interval, and no number lies
/// in an interval with a NaN for a bound.
pub open spec fn within(t: Scalar, t_range: Range<Scalar>) -> bool {
    t_range.start.at_most(t) && t.less(t_range.end)
}

/// Whether a ray meets a surface from its outward side, given `approach`, the
/// dot product of the ray's direction with the outward normal: it does when
/// the ray runs against that normal, that is when `approach < 0`. A ray that
/// grazes the surface (`approach` a zero of either sign) does not, nor does
/// one whose dot product is a NaN.
pub open spec fn faces_front(approach: Scalar) -> bool {
    approach.less(Scalar { bits: 0 })
}

/// The normal to store for a surface whose outward normal is
/// `outward_normal`: that normal itself when the ray comes from outside,
/// its negation when the ray comes from inside.
pub open spec fn facing_normal(outward_normal: Vec3, approach: Scalar) -> Vec3 {
    if faces_front(approach) {
        outward_normal
    } else {
        outward_normal.negated()
    }
}

impl Hit {
    /// Records an intersection at parameter `t` of a ray, at the point `p`
    /// that the ray reaches there, on a surface whose unit-length outward
    /// normal at `p` is `outward_normal`. `approach` is the dot product of
    /// the ray's direction with `outward_normal`.
    ///
    /// Nothing is normalized or checked here: the normal is stored as given
    /// or negated, bit for bit.
    pub fn new(p: Point, t: Scalar, outward_normal: Vec3, approach: Scalar) -> (h: Hit)
        ensures
            h.p == p,
            h.t == t,
            h.front_face == faces_front(approach),
            h.normal == facing_normal(outward_normal, approach),
            h.front_face ==> h.normal == outward_normal,
            !h.front_face ==> h.normal == outward_normal.negated(),
    {
        let front_face = approach.lt(Scalar::zero());
        let normal = if front_face {
            outward_normal
        } else {
            outward_normal.neg()
        };
        Hit { p, normal, t, front_face }
    }
}

/// The stored normal never runs along the ray. Flipping a normal flips the
/// sign of its dot product with the direction, so the dot product of the
/// direction with the stored normal is `approach` on the front face and
/// `-approach` otherwise; unless it is a NaN, that number is at most zero.
pub proof fn lemma_stored_normal_opposes_ray(approach: Scalar)
    ensures
        faces_front(approach) ==> approach.at_most(Scalar { bits: 0 }),
        !faces_front(approach) && !approach.nan() ==> approach.negated().at_most(
            Scalar { bits: 0 },
        ),
{
    lemma_negated_parts(approach);
}

} // verus!
