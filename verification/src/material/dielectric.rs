//! Transparent, refracting surfaces.

use vstd::prelude::*;
use crate::hittable::HitRecord;
use crate::material::ScatterResult;
use crate::ray::Ray;
use crate::scalar::{Scalar, ONE_BITS};
use crate::vec3::{Color, Vec3};

verus! {

/// Glass and the like, known by its index of refraction.
#[derive(Clone, Copy, Debug, PartialEq, Eq, Structural)]
pub struct Dielectric {
    pub ir: Scalar,
}

/// The colour that leaves light as it is: 1 in every channel.
pub open spec fn white() -> Color {
    Vec3(Scalar::of(ONE_BITS), Scalar::of(ONE_BITS), Scalar::of(ONE_BITS))
}

impl Dielectric {
    /// Snell's law has no solution: the sine of the refracted angle, which is
    /// `sine_ratio`, would exceed 1.
    pub open spec fn total_reflection(sine_ratio: Scalar) -> bool {
        Scalar::of(ONE_BITS).below(sine_ratio)
    }

    /// The ray is mirrored: under total reflection, and where the
    /// reflectance exceeds the draw.
    pub open spec fn mirrored(sine_ratio: Scalar, reflectance: Scalar, draw: Scalar) -> bool {
        Self::total_reflection(sine_ratio) || draw.below(reflectance)
    }

    /// A dielectric of the given index of refraction.
    pub fn new(ir: Scalar) -> (m: Dielectric)
        ensures
            m.ir == ir,
    {
        Dielectric { ir }
    }

    /// The ratio of the refraction indices that the ray passes between.
    /// `reciprocal` is 1 over the material's index: the ratio for a ray that
    /// enters through the front face. For one that leaves, the ratio is the
    /// index itself.
    pub fn refraction_ratio(&self, front_face: bool, reciprocal: Scalar) -> (r: Scalar)
        ensures
            r == (if front_face {
                reciprocal
            } else {
                self.ir
            }),
    {
        if front_face {
            reciprocal
        } else {
            self.ir
        }
    }

    /// The cosine of the angle of incidence. `dot` is the dot product of the
    /// reversed unit direction with the normal; the cosine is `dot`, held
    /// down to 1 against rounding.
    pub fn cos_theta(dot: Scalar) -> (r: Scalar)
        ensures
            r == dot.minimum(Scalar::of(ONE_BITS)),
            !r.nan(),
            r.at_most(Scalar::of(ONE_BITS)),
    {
        dot.min(Scalar::from_bits(ONE_BITS))
    }

    /// Whether the ray cannot be refracted. `sine_ratio` is the refraction
    /// ratio times the sine of the angle of incidence.
    pub fn cannot_refract(sine_ratio: Scalar) -> (r: bool)
        ensures
            r == Self::total_reflection(sine_ratio),
    {
        sine_ratio.gt(Scalar::from_bits(ONE_BITS))
    }

    /// Whether the ray is mirrored rather than refracted: always under total
    /// reflection, and otherwise where the reflectance exceeds `draw`, a
    /// uniform draw from `[0, 1)`. Under total reflection the last two
    /// arguments are not read.
    pub fn reflects(sine_ratio: Scalar, reflectance: Scalar, draw: Scalar) -> (r: bool)
        ensures
            r == Self::mirrored(sine_ratio, reflectance, draw),
    {
        Self::cannot_refract(sine_ratio) || reflectance.gt(draw)
    }

    /// Scatters at `rec` along `direction`, the mirrored or the refracted
    /// direction as `reflects` chose. Glass never absorbs and takes no colour
    /// from the light.
    pub fn scatter(&self, rec: &HitRecord, direction: Vec3) -> (r: ScatterResult)
        ensures
            r == ScatterResult::Scattered((Ray { origin: rec.p, direction }), white()),
    {
        let one = Scalar::from_bits(ONE_BITS);
        ScatterResult::Scattered(Ray { origin: rec.p, direction }, Vec3(one, one, one))
    }
}

/// Total reflection needs a sine above 1. Up to there the ray is mirrored
/// only where the draw falls under the reflectance; so it is for a ray that
/// meets the glass head-on, whose angle of incidence has the sine zero.
pub proof fn lemma_no_total_reflection_up_to_one(
    sine_ratio: Scalar,
    reflectance: Scalar,
    draw: Scalar,
)
    requires
        sine_ratio.at_most(Scalar::of(ONE_BITS)),
    ensures
        !Dielectric::total_reflection(sine_ratio),
        Dielectric::mirrored(sine_ratio, reflectance, draw) == draw.below(reflectance),
{
}

} // verus!
