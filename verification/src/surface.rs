//! Surfaces: what a ray can hit, and the record of a hit.
pub mod hit;
pub mod hittable;
