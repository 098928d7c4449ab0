//! Surface materials and what they do to an incoming ray.

use vstd::prelude::*;
use crate::ray::Ray;
use crate::vec3::Color;

pub mod dielectric;
pub mod lambertian;
pub mod metal;

pub use dielectric::Dielectric;
pub use lambertian::Lambertian;
pub use metal::Metal;

verus! {

/// What became of a ray at a surface.
#[derive(Clone, Copy, Debug, PartialEq, Eq, Structural)]
pub enum ScatterResult {
    /// The ray ends here and carries no light. The ray that would have left
    /// the surface is kept for inspection.
    Absorbed(Ray),
    /// The ray goes on as the given ray, its light multiplied channel by
    /// channel by the given attenuation.
    Scattered(Ray, Color),
}

/// The materials a surface can be made of.
#[derive(Clone, Copy, Debug, PartialEq, Eq, Structural)]
pub enum Material {
    Lambertian(Lambertian),
    Metal(Metal),
    Dielectric(Dielectric),
}

} // verus!
