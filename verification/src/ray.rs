//! Rays: half-lines through the scene.

use vstd::prelude::*;
use crate::vec3::{Point3, Vec3};

verus! {

/// The points `origin + t * direction`, for `t` from zero on. The direction
/// need not have unit length.
#[derive(Clone, Copy, Debug, PartialEq, Eq, Structural)]
pub struct Ray {
    pub origin: Point3,
    pub direction: Vec3,
}

} // verus!
