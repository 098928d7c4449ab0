//! Decision core of a sphere path tracer.
//!
//! The caller does the floating-point arithmetic of the renderer and hands
//! its results over as bit patterns. The library holds the scene's data and
//! makes every decision of the rendering algorithm: which root of a sphere's
//! quadratic counts as a hit, which hit is nearest, how a surface normal is
//! oriented, whether a material scatters or absorbs, when a path ends, and how
//! a colour becomes a line of the image.
//!
//! For each ray the caller
//! 1. asks `integrator::exhausted` whether the ray has a bounce left;
//! 2. solves the quadratic of the ray and each sphere, and hands the
//!    `hittable::Roots` to `integrator::visible_hit`;
//! 3. computes the point of the hit and the outward normal there, and lets
//!    `hittable::Sphere::record` turn the normal against the ray;
//! 4. computes the direction in which the material of the hit would send the
//!    ray on, and lets the material's `scatter` say what becomes of the ray;
//! 5. hands the outcome to `integrator::resolve`, and multiplies the colours
//!    as the verdict says.
//!
//! The colours of a row, averaged over their samples and gamma-corrected, go
//! to `image::scanline`, and `image::Scanlines` says which row is written
//! next.

pub mod hittable;
pub mod image;
pub mod integrator;
pub mod material;
pub mod ray;
pub mod sampling;
pub mod scalar;
pub mod text;
pub mod vec3;
