//! Spheres, and the choice between the two places where a ray crosses one.

use vstd::prelude::*;
use crate::hittable::HitRecord;
use crate::material::Material;
use crate::scalar::Scalar;
use crate::vec3::{Point3, Vec3};

verus! {

/// A sphere. A negative radius turns the surface inside out: the sphere is
/// the same set of points, and its outward normals point to the centre.
#[derive(Clone, Copy, Debug, PartialEq, Eq, Structural)]
pub struct Sphere {
    pub center: Point3,
    pub radius: Scalar,
    pub material: Material,
}

/// Where a ray's line crosses a sphere: the discriminant of the quadratic
/// `a t^2 + 2 half_b t + c = 0`, and its two solutions
/// `(-half_b - sqrt(discriminant)) / a` and `(-half_b + sqrt(discriminant)) / a`
/// as ray parameters. Under a negative discriminant the line misses the
/// sphere and the two solutions mean nothing.
#[derive(Clone, Copy, Debug, PartialEq, Eq, Structural)]
pub struct Roots {
    pub discriminant: Scalar,
    pub near: Scalar,
    pub far: Scalar,
}

/// `t` is neither under `t_min` nor over `t_max`.
pub open spec fn admits(t_min: Scalar, t_max: Scalar, t: Scalar) -> bool {
    !t.below(t_min) && !t_max.below(t)
}

impl Roots {
    /// The line misses the sphere.
    pub open spec fn misses(self) -> bool {
        self.discriminant.below(Scalar::of(0))
    }

    /// The crossing that counts as the hit: the near one where the range
    /// admits it, else the far one where the range admits that, and none
    /// where the line misses the sphere.
    pub open spec fn first_within(self, t_min: Scalar, t_max: Scalar) -> Option<Scalar> {
        if self.misses() {
            None
        } else if admits(t_min, t_max, self.near) {
            Some(self.near)
        } else if admits(t_min, t_max, self.far) {
            Some(self.far)
        } else {
            None
        }
    }

    /// The two solutions are numbers and come in order.
    pub open spec fn ordered(self) -> bool {
        self.near.at_most(self.far)
    }

    /// The ray parameter at which the ray hits the sphere within
    /// `[t_min, t_max]`, if it does: the smaller solution is tried first,
    /// then the larger.
    pub fn hit(&self, t_min: Scalar, t_max: Scalar) -> (r: Option<Scalar>)
        ensures
            r == self.first_within(t_min, t_max),
            r matches Some(t) ==> admits(t_min, t_max, t) && (t == self.near || t == self.far),
            r is None <==> self.misses() || (!admits(t_min, t_max, self.near) && !admits(
                t_min,
                t_max,
                self.far,
            )),
    {
        if self.discriminant.lt(Scalar::from_bits(0)) {
            return None;
        }
        let mut root = self.near;
        if root.lt(t_min) || t_max.lt(root) {
            root = self.far;
            if root.lt(t_min) || t_max.lt(root) {
                return None;
            }
        }
        Some(root)
    }
}

/// The hit is the first crossing that the range admits: of a sphere whose
/// crossings come in order, neither crossing is admitted and nearer than the
/// one that counts as the hit.
pub proof fn lemma_hit_is_first_crossing(q: Roots, t_min: Scalar, t_max: Scalar)
    requires
        q.ordered(),
    ensures
        q.first_within(t_min, t_max) matches Some(t) ==> ({
            &&& admits(t_min, t_max, q.near) ==> t.at_most(q.near)
            &&& admits(t_min, t_max, q.far) ==> t.at_most(q.far)
        }),
{
}

impl Sphere {
    /// The radius is not zero.
    pub open spec fn well_formed(self) -> bool {
        self.radius.magnitude() != 0
    }

    /// The sphere with the given centre, radius and material. The radius
    /// must not be zero; it may be negative.
    pub fn new(center: Point3, radius: Scalar, material: Material) -> (s: Sphere)
        requires
            radius.magnitude() != 0,
        ensures
            s.center == center,
            s.radius == radius,
            s.material == material,
            s.well_formed(),
    {
        Sphere { center, radius, material }
    }

    /// The record of a hit on this sphere at ray parameter `t` and point `p`.
    /// `outward_normal` is `(p - center) / radius`, and `alignment` is its dot
    /// product with the ray's direction.
    pub fn record(
        &self,
        t: Scalar,
        p: Point3,
        outward_normal: Vec3,
        alignment: Scalar,
    ) -> (rec: HitRecord)
        ensures
            rec == HitRecord::facing(p, t, self.material, alignment, outward_normal),
    {
        let mut rec = HitRecord {
            p,
            normal: outward_normal,
            material: self.material,
            t,
            front_face: true,
        };
        rec.set_face_normal(alignment, outward_normal);
        rec
    }
}

} // verus!
