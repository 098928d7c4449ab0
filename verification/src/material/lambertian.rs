//! Diffuse surfaces.

use vstd::prelude::*;
use crate::hittable::HitRecord;
use crate::material::ScatterResult;
use crate::ray::Ray;
use crate::vec3::{Color, Vec3};

verus! {

/// A matte surface that scatters every ray, tinted by its albedo.
#[derive(Clone, Copy, Debug, PartialEq, Eq, Structural)]
pub struct Lambertian {
    pub albedo: Color,
}

impl Lambertian {
    /// What the surface does to a ray that hits it at `rec`: the ray leaves
    /// the point of the hit along `scatter_direction`, or along the normal
    /// where that direction is negligible, and is tinted by the albedo.
    pub open spec fn scattered(self, rec: HitRecord, scatter_direction: Vec3) -> ScatterResult {
        ScatterResult::Scattered(
            Ray {
                origin: rec.p,
                direction: if scatter_direction.negligible() {
                    rec.normal
                } else {
                    scatter_direction
                },
            },
            self.albedo,
        )
    }

    /// A diffuse material of the given albedo.
    pub fn new(albedo: Color) -> (m: Lambertian)
        ensures
            m.albedo == albedo,
    {
        Lambertian { albedo }
    }

    /// Scatters at `rec`. `scatter_direction` is the surface normal plus a
    /// random unit vector; where the two cancel, the ray leaves along the
    /// normal instead. A diffuse surface never absorbs.
    pub fn scatter(&self, rec: &HitRecord, scatter_direction: Vec3) -> (r: ScatterResult)
        ensures
            r == self.scattered(*rec, scatter_direction),
            r is Scattered,
    {
        let direction = if scatter_direction.near_zero() {
            rec.normal
        } else {
            scatter_direction
        };
        ScatterResult::Scattered(Ray { origin: rec.p, direction }, self.albedo)
    }
}

} // verus!
