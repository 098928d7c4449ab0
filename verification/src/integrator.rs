//! The path-tracing recursion: what a ray's colour is made of.
//!
//! The colour of a ray that may bounce `depth` more times is black where
//! `depth` is zero. Otherwise the ray is cast into the scene. Where it meets
//! nothing, its colour is the sky's. Where the surface it meets absorbs it,
//! its colour is black. Where the surface scatters it, its colour is the
//! attenuation times the colour of the scattered ray, which may bounce one
//! time less.

use vstd::prelude::*;
use vstd::arithmetic::power2::*;
use crate::hittable::{self, Nearest, Roots};
use crate::material::ScatterResult;
use crate::ray::Ray;
use crate::scalar::{lemma_significand_approximates, Scalar, INFINITY_BITS};
use crate::vec3::Color;

verus! {

/// The nearest distance at which a ray can hit, so that a scattered ray does
/// not meet the surface it leaves: the double nearest to 0.001.
pub const MIN_DISTANCE_BITS: u64 = 0x3F50_624D_D2F1_A9FC;

/// What the colour of a ray is made of.
#[derive(Clone, Copy, Debug, PartialEq, Eq, Structural)]
pub enum Verdict {
    /// The ray carries no light.
    Black,
    /// The ray met nothing: its colour is that of the sky in its direction.
    Sky,
    /// The ray's colour is `attenuation` times the colour of `ray`, which may
    /// bounce `depth` more times.
    Bounce { ray: Ray, attenuation: Color, depth: u8 },
}

/// The verdict on a ray that may bounce `depth` more times. `met` says what
/// the ray met in the scene: nothing, or a surface and what its material
/// did.
pub open spec fn verdict(depth: u8, met: Option<ScatterResult>) -> Verdict {
    if depth == 0 {
        Verdict::Black
    } else {
        match met {
            None => Verdict::Sky,
            Some(ScatterResult::Absorbed(_)) => Verdict::Black,
            Some(ScatterResult::Scattered(ray, attenuation)) => Verdict::Bounce {
                ray,
                attenuation,
                depth: (depth - 1) as u8,
            },
        }
    }
}

/// The number of surfaces that scatter a path which may bounce `depth` times.
/// `path` says what each ray of the path would meet, the first ray first.
pub open spec fn bounces(depth: u8, path: Seq<Option<ScatterResult>>) -> nat
    decreases path.len(),
{
    if path.len() == 0 {
        0
    } else {
        match verdict(depth, path[0]) {
            Verdict::Bounce { depth: rest, .. } => 1 + bounces(rest, path.skip(1)),
            _ => 0,
        }
    }
}

/// Whether a ray has used up its bounces. The colour of such a ray is black,
/// and the scene is not asked about it.
pub fn exhausted(depth: u8) -> (r: bool)
    ensures
        r == (depth == 0),
        r ==> forall|met: Option<ScatterResult>| verdict(depth, met) == Verdict::Black,
{
    depth == 0
}

/// The range of ray parameters in which a hit counts for a ray's colour:
/// from `MIN_DISTANCE_BITS` on, at any distance.
pub open spec fn visible(t: Scalar) -> bool {
    hittable::admits(Scalar::of(MIN_DISTANCE_BITS), Scalar::of(INFINITY_BITS), t)
}

/// The hit that counts for a ray's colour: the nearest one in the visible
/// range, as `hittable::hit` finds it.
pub fn visible_hit(roots: &Vec<Roots>) -> (r: Option<Nearest>)
    ensures
        r is None <==> hittable::nearest(
            roots@,
            Scalar::of(MIN_DISTANCE_BITS),
            Scalar::of(INFINITY_BITS),
        ) is None,
        r matches Some(n) ==> hittable::nearest(
            roots@,
            Scalar::of(MIN_DISTANCE_BITS),
            Scalar::of(INFINITY_BITS),
        ) == Some((n.index as int, n.t)),
        r matches Some(n) ==> n.index < roots.len() && !n.t.below(Scalar::of(MIN_DISTANCE_BITS)),
        roots.len() == 0 ==> r is None,
        hittable::all_ordered(roots@) ==> (r matches Some(n) ==> visible(n.t)),
{
    hittable::hit(roots, Scalar::from_bits(MIN_DISTANCE_BITS), Scalar::from_bits(INFINITY_BITS))
}

/// What the colour of a ray is made of, from the bounces it has left and
/// what it met.
pub fn resolve(depth: u8, met: Option<ScatterResult>) -> (v: Verdict)
    ensures
        v == verdict(depth, met),
        (v matches Verdict::Bounce { depth: rest, .. } ==> rest < depth),
{
    if depth == 0 {
        return Verdict::Black;
    }
    match met {
        None => Verdict::Sky,
        Some(ScatterResult::Absorbed(_)) => Verdict::Black,
        Some(ScatterResult::Scattered(ray, attenuation)) => Verdict::Bounce {
            ray,
            attenuation,
            depth: depth - 1,
        },
    }
}

/// `MIN_DISTANCE_BITS` is a double nearest to 0.001.
pub proof fn lemma_min_distance()
    ensures
        Scalar::of(MIN_DISTANCE_BITS).approximates(1, 1000),
        Scalar::of(MIN_DISTANCE_BITS).fraction() != 0,
{
    let c = Scalar::of(MIN_DISTANCE_BITS);
    assert(c.exponent() == 1013 && c.fraction() == 0x624D_D2F1_A9FC);
    lemma2_to64_rest();
    lemma_significand_approximates(c, 1, 1000, 62);
}

/// A ray without bounces left is black, whatever it would meet.
pub proof fn lemma_no_depth_is_black(met: Option<ScatterResult>)
    ensures
        verdict(0, met) == Verdict::Black,
{
}

/// The depth bounds the path: no path is scattered more often than its depth
/// allows, and each bounce leaves one bounce less.
pub proof fn lemma_depth_bounds_path(depth: u8, path: Seq<Option<ScatterResult>>)
    ensures
        bounces(depth, path) <= depth,
        bounces(depth, path) <= path.len(),
    decreases path.len(),
{
    if path.len() > 0 {
        match verdict(depth, path[0]) {
            Verdict::Bounce { depth: rest, .. } => {
                lemma_depth_bounds_path(rest, path.skip(1));
            },
            _ => {},
        }
    }
}

} // verus!
