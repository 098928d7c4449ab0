//! Reflective surfaces.

use vstd::prelude::*;
use crate::hittable::HitRecord;
use crate::material::ScatterResult;
use crate::ray::Ray;
use crate::scalar::{Scalar, ONE_BITS};
use crate::vec3::{Color, Vec3};

verus! {

/// A mirror, tinted by its albedo and blurred by its fuzz, which lies between
/// 0 and 1. A fuzz of zero is a perfect mirror.
#[derive(Clone, Copy, Debug, PartialEq, Eq, Structural)]
pub struct Metal {
    pub albedo: Color,
    pub fuzz: Scalar,
}

impl Metal {
    /// The fuzz lies between 0 and 1.
    pub open spec fn well_formed(self) -> bool {
        Scalar::of(0).at_most(self.fuzz) && self.fuzz.at_most(Scalar::of(ONE_BITS))
    }

    /// What the surface does to a ray that hits it at `rec` and would leave
    /// along `direction`, whose dot product with the normal is `alignment`:
    /// the ray leaves, tinted by the albedo, where the alignment is above
    /// zero, and is absorbed otherwise.
    pub open spec fn scattered(
        self,
        rec: HitRecord,
        direction: Vec3,
        alignment: Scalar,
    ) -> ScatterResult {
        if Scalar::of(0).below(alignment) {
            ScatterResult::Scattered(Ray { origin: rec.p, direction }, self.albedo)
        } else {
            ScatterResult::Absorbed(Ray { origin: rec.p, direction })
        }
    }

    /// A metal of the given albedo and fuzz. The fuzz must lie between 0
    /// and 1.
    pub fn new(albedo: Color, fuzz: Scalar) -> (m: Metal)
        requires
            Scalar::of(0).at_most(fuzz),
            fuzz.at_most(Scalar::of(ONE_BITS)),
        ensures
            m.albedo == albedo,
            m.fuzz == fuzz,
            m.well_formed(),
    {
        Metal { albedo, fuzz }
    }

    /// Scatters at `rec`. `direction` is the mirrored incoming direction plus
    /// the fuzz times a random point of the unit ball, and `alignment` is its
    /// dot product with the surface normal. The ray leaves along `direction`
    /// where that points away from the surface, and is absorbed where the
    /// alignment is not above zero.
    pub fn scatter(&self, rec: &HitRecord, direction: Vec3, alignment: Scalar) -> (r: ScatterResult)
        ensures
            r == self.scattered(*rec, direction, alignment),
            r is Absorbed <==> !Scalar::of(0).below(alignment),
    {
        let scattered = Ray { origin: rec.p, direction };
        if alignment.gt(Scalar::from_bits(0)) {
            ScatterResult::Scattered(scattered, self.albedo)
        } else {
            ScatterResult::Absorbed(scattered)
        }
    }
}

/// A metal absorbs exactly the rays that would leave into the surface: where
/// the alignment is a number, the ray is absorbed if and only if the
/// alignment is at most zero.
pub proof fn lemma_metal_absorbs_inward_rays(
    metal: Metal,
    rec: HitRecord,
    direction: Vec3,
    alignment: Scalar,
)
    requires
        !alignment.nan(),
    ensures
        metal.scattered(rec, direction, alignment) is Absorbed <==> alignment.at_most(
            Scalar::of(0),
        ),
{
}

} // verus!
