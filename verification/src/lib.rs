//! Verified core of a pair of physically-based renderers: an offline
//! Monte-Carlo path tracer over triangle meshes with a bounding-volume
//! hierarchy, and a sphere-marching renderer over signed-distance-field
//! scene graphs.
//!
//! All geometry is carried in exact fixed-point arithmetic (integer
//! multiples of `1/math::SCALE`), so every predicate — ray/triangle
//! intersection, slab tests, distance comparisons — is exact and every
//! contract pins the result down to the last unit.

pub mod math;
pub mod vec3;
pub mod rat;
pub mod domain;
pub mod bounds;
pub mod random;
pub mod triangle;
pub mod bvh;
pub mod sdf;
pub mod material;
pub mod pbr;
pub mod scene;
pub mod texture;
