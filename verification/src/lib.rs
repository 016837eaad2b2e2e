//! The core of a ray-based renderer: the values it passes around and the
//! decisions it takes on them.
//!
//! Components of vectors and ray parameters are double-precision numbers, held
//! here by their bit patterns (see [`scalar`]). Whatever rounds (sums,
//! products, roots) is the caller's business; what is decided on the numbers
//! once they exist is decided here: which way a surface normal is stored, and
//! which of many intersections is the one a ray sees.
pub mod scalar;
pub mod vec3;
pub mod ray;
pub mod surface;
