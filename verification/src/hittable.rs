//! Hits: what a ray meets first, and how the surface faces it.

use vstd::prelude::*;
use crate::material::Material;
use crate::scalar::Scalar;
use crate::vec3::{Point3, Vec3};

pub mod sphere;

pub use sphere::{admits, Roots, Sphere};

verus! {

/// Where and how a ray met a surface.
#[derive(Clone, Copy, Debug, PartialEq, Eq, Structural)]
pub struct HitRecord {
    /// The point of the hit.
    pub p: Point3,
    /// The surface normal at the point, turned against the ray.
    pub normal: Vec3,
    /// The material of the surface.
    pub material: Material,
    /// The ray parameter of the hit.
    pub t: Scalar,
    /// Whether the ray came from outside the surface.
    pub front_face: bool,
}

impl HitRecord {
    /// The record of a hit at `p` and ray parameter `t` on a surface of the
    /// given material, whose outward normal at `p` is `outward_normal` and has
    /// the dot product `alignment` with the ray's direction. The ray comes
    /// from outside where the alignment is below zero; the record's normal is
    /// the outward one for a ray from outside and its opposite otherwise.
    pub open spec fn facing(
        p: Point3,
        t: Scalar,
        material: Material,
        alignment: Scalar,
        outward_normal: Vec3,
    ) -> HitRecord {
        let front_face = alignment.below(Scalar::of(0));
        HitRecord {
            p,
            normal: if front_face {
                outward_normal
            } else {
                outward_normal.negated()
            },
            material,
            t,
            front_face,
        }
    }

    /// Orients the normal against the ray. `alignment` is the dot product of
    /// the ray's direction with `outward_normal`: below zero the ray comes
    /// from outside and the normal is the outward one, otherwise the ray
    /// comes from inside and the normal is the outward one reversed.
    pub fn set_face_normal(&mut self, alignment: Scalar, outward_normal: Vec3)
        ensures
            *final(self) == HitRecord::facing(
                old(self).p,
                old(self).t,
                old(self).material,
                alignment,
                outward_normal,
            ),
    {
        self.front_face = alignment.lt(Scalar::from_bits(0));
        self.normal = if self.front_face {
            outward_normal
        } else {
            outward_normal.neg()
        };
    }
}

/// A scene: its spheres, in any order.
pub type HittableList = Vec<Sphere>;

/// The nearest hit of a ray in a scene: which sphere, counted from zero, and
/// at which ray parameter.
#[derive(Clone, Copy, Debug, PartialEq, Eq, Structural)]
pub struct Nearest {
    pub index: usize,
    pub t: Scalar,
}

/// The hit that one pass over the spheres retains. `roots` holds the ray's
/// crossings with each sphere, in the scene's order. Each sphere is asked for
/// a hit no farther than the one retained so far, so that a later sphere
/// replaces an earlier one where it is hit as near or nearer.
pub open spec fn nearest(roots: Seq<Roots>, t_min: Scalar, t_max: Scalar) -> Option<(int, Scalar)>
    decreases roots.len(),
{
    if roots.len() == 0 {
        None
    } else {
        let before = nearest(roots.drop_last(), t_min, t_max);
        let closest_so_far = match before {
            Some((_, t)) => t,
            None => t_max,
        };
        match roots.last().first_within(t_min, closest_so_far) {
            Some(t) => Some((roots.len() - 1, t)),
            None => before,
        }
    }
}

/// Every sphere's two crossings are numbers and come in order.
pub open spec fn all_ordered(roots: Seq<Roots>) -> bool {
    forall|j: int| 0 <= j < roots.len() ==> (#[trigger] roots[j]).ordered()
}

/// The nearest hit of a ray within `[t_min, t_max]`, from its crossings with
/// each sphere of the scene. An empty scene is never hit. Where each
/// sphere's crossings come in order, the answer is the hit with the smallest
/// ray parameter that any sphere reports for the range, and of spheres hit
/// equally near the last.
pub fn hit(roots: &Vec<Roots>, t_min: Scalar, t_max: Scalar) -> (r: Option<Nearest>)
    ensures
        r is None <==> nearest(roots@, t_min, t_max) is None,
        r matches Some(n) ==> nearest(roots@, t_min, t_max) == Some((n.index as int, n.t)),
        r matches Some(n) ==> n.index < roots.len() && !n.t.below(t_min),
        roots.len() == 0 ==> r is None,
        all_ordered(roots@) && r is None ==> forall|j: int|
            0 <= j < roots.len() ==> (#[trigger] roots[j]).first_within(t_min, t_max) is None,
        all_ordered(roots@) ==> (r matches Some(n) ==> {
            &&& roots[n.index as int].first_within(t_min, t_max) == Some(n.t)
            &&& admits(t_min, t_max, n.t)
            &&& forall|j: int|
                0 <= j < roots.len() ==> ((#[trigger] roots[j]).first_within(t_min, t_max)
                    matches Some(other) ==> n.t.at_most(other) && (n.index < j ==> n.t.below(
                    other,
                )))
        }),
{
    let mut found: Option<Nearest> = None;
    let mut closest_so_far = t_max;
    let mut i: usize = 0;
    while i < roots.len()
        invariant
            i <= roots.len(),
            found is None <==> nearest(roots@.take(i as int), t_min, t_max) is None,
            found is None ==> closest_so_far == t_max,
            found matches Some(n) ==> n.t == closest_so_far && nearest(
                roots@.take(i as int),
                t_min,
                t_max,
            ) == Some((n.index as int, n.t)),
        decreases roots.len() - i,
    {
        assert(roots@.take(i + 1).drop_last() =~= roots@.take(i as int));
        if let Some(t) = roots[i].hit(t_min, closest_so_far) {
            closest_so_far = t;
            found = Some(Nearest { index: i, t });
        }
        i += 1;
    }
    assert(roots@.take(i as int) =~= roots@);
    proof {
        lemma_nearest_is_crossing(roots@, t_min, t_max);
        if all_ordered(roots@) {
            lemma_nearest_is_least(roots@, t_min, t_max);
        }
    }
    found
}

/// The hit that a pass retains is a crossing of a sphere whose line the ray
/// does not miss, and it is not under `t_min`.
pub proof fn lemma_nearest_is_crossing(roots: Seq<Roots>, t_min: Scalar, t_max: Scalar)
    ensures
        nearest(roots, t_min, t_max) matches Some((i, t)) ==> ({
            &&& 0 <= i < roots.len()
            &&& t == roots[i].near || t == roots[i].far
            &&& !roots[i].misses()
            &&& !t.below(t_min)
        }),
    decreases roots.len(),
{
    if roots.len() > 0 {
        lemma_nearest_is_crossing(roots.drop_last(), t_min, t_max);
    }
}

/// A nearer upper bound changes nothing about the crossing that a sphere
/// reports, but that a crossing beyond the new bound is no longer reported.
proof fn lemma_tighter_bound(q: Roots, t_min: Scalar, t_max: Scalar, bound: Scalar)
    requires
        q.ordered(),
        !bound.nan(),
        !t_max.below(bound),
    ensures
        q.first_within(t_min, bound) == (match q.first_within(t_min, t_max) {
            Some(t) => if bound.below(t) {
                None
            } else {
                Some(t)
            },
            None => None,
        }),
{
}

/// One pass finds the nearest hit. Where each sphere's two crossings come in
/// order, the pass retains nothing only if no sphere is hit within
/// `[t_min, t_max]`; and the hit it retains is one that its sphere reports for
/// that range, no sphere is hit nearer, and no later sphere as near.
pub proof fn lemma_nearest_is_least(roots: Seq<Roots>, t_min: Scalar, t_max: Scalar)
    requires
        all_ordered(roots),
    ensures
        nearest(roots, t_min, t_max) is None ==> forall|j: int|
            0 <= j < roots.len() ==> (#[trigger] roots[j]).first_within(t_min, t_max) is None,
        nearest(roots, t_min, t_max) matches Some((i, t)) ==> ({
            &&& 0 <= i < roots.len()
            &&& roots[i].first_within(t_min, t_max) == Some(t)
            &&& forall|j: int|
                0 <= j < roots.len() ==> ((#[trigger] roots[j]).first_within(t_min, t_max)
                    matches Some(other) ==> t.at_most(other) && (i < j ==> t.below(other)))
        }),
    decreases roots.len(),
{
    if roots.len() > 0 {
        let earlier = roots.drop_last();
        let last = roots.last();
        lemma_nearest_is_least(earlier, t_min, t_max);
        assert(forall|j: int| 0 <= j < earlier.len() ==> earlier[j] == roots[j]);
        match nearest(earlier, t_min, t_max) {
            Some((i, t)) => {
                assert(earlier[i].ordered());
                lemma_tighter_bound(last, t_min, t_max, t);
            },
            None => {},
        }
    }
}

/// The order of the spheres decides between equally near hits and nothing
/// else. Where two scenes hold the same spheres, in any order and number, and
/// each sphere's crossings come in order, a ray hits both scenes or neither,
/// and at the same distance.
pub proof fn lemma_order_breaks_ties_only(
    first: Seq<Roots>,
    second: Seq<Roots>,
    t_min: Scalar,
    t_max: Scalar,
)
    requires
        all_ordered(first),
        all_ordered(second),
        forall|i: int| 0 <= i < first.len() ==> second.contains(#[trigger] first[i]),
        forall|j: int| 0 <= j < second.len() ==> first.contains(#[trigger] second[j]),
    ensures
        nearest(first, t_min, t_max) is None <==> nearest(second, t_min, t_max) is None,
        nearest(first, t_min, t_max) matches Some((_, t)) ==> (nearest(
            second,
            t_min,
            t_max,
        ) matches Some((_, u)) ==> !t.nan() && !u.nan() && t.rank() == u.rank()),
{
    lemma_nearest_is_least(first, t_min, t_max);
    lemma_nearest_is_least(second, t_min, t_max);
    if let Some((i, t)) = nearest(first, t_min, t_max) {
        assert(second.contains(first[i]));
        let j = choose|j: int| 0 <= j < second.len() && second[j] == first[i];
        assert(second[j].first_within(t_min, t_max) == Some(t));
    }
    if let Some((j, u)) = nearest(second, t_min, t_max) {
        assert(first.contains(second[j]));
        let i = choose|i: int| 0 <= i < first.len() && first[i] == second[j];
        assert(first[i].first_within(t_min, t_max) == Some(u));
    }
}

/// The dot product of the ray's direction with the recorded normal, where
/// `alignment` is its dot product with the outward normal: the same for a ray
/// from outside, and the opposite for one from inside, whose recorded normal
/// is the outward one reversed.
pub open spec fn incidence(alignment: Scalar) -> Scalar {
    if alignment.below(Scalar::of(0)) {
        alignment
    } else {
        alignment.negated()
    }
}

/// The recorded normal opposes the ray: the dot product of the two is never
/// above zero.
pub proof fn lemma_normal_opposes_ray(alignment: Scalar)
    ensures
        !Scalar::of(0).below(incidence(alignment)),
        !alignment.nan() ==> incidence(alignment).at_most(Scalar::of(0)),
{
}

/// A sphere turned inside out shows the other face and the same normal. Its
/// outward normal and the alignment change sign; the record of a hit keeps
/// its normal, and says "from inside" where it said "from outside", unless
/// the ray grazes the surface.
pub proof fn lemma_inside_out(
    p: Point3,
    t: Scalar,
    material: Material,
    alignment: Scalar,
    outward_normal: Vec3,
)
    requires
        !alignment.nan(),
        alignment.rank() != 0,
    ensures
        HitRecord::facing(p, t, material, alignment.negated(), outward_normal.negated()).normal
            == HitRecord::facing(p, t, material, alignment, outward_normal).normal,
        HitRecord::facing(p, t, material, alignment.negated(), outward_normal.negated()).front_face
            != HitRecord::facing(p, t, material, alignment, outward_normal).front_face,
{
}

} // verus!
