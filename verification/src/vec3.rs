//! Triples of scalars: points, directions and colours.

use vstd::prelude::*;
use vstd::arithmetic::power2::*;
use crate::scalar::{lemma_significand_approximates, Scalar};

pub mod color;

verus! {

/// Threshold under which a component counts as zero: the double nearest to
/// 1e-8.
pub const NEAR_ZERO_BITS: u64 = 0x3E45_798E_E230_8C3A;

/// A three-dimensional vector.
#[derive(Clone, Copy, Debug, PartialEq, Eq, Structural)]
pub struct Vec3(pub Scalar, pub Scalar, pub Scalar);

/// A position in space.
pub type Point3 = Vec3;

/// A colour, by its red, green and blue parts.
pub type Color = Vec3;

impl Vec3 {
    /// The vector with each component negated.
    pub open spec fn negated(self) -> Vec3 {
        Vec3(self.0.negated(), self.1.negated(), self.2.negated())
    }

    /// Every component is a number of magnitude under 1e-8.
    pub open spec fn negligible(self) -> bool {
        let s = Scalar::of(NEAR_ZERO_BITS);
        self.0.absolute().below(s) && self.1.absolute().below(s) && self.2.absolute().below(s)
    }

    /// The vector with the given components.
    pub fn new(x: Scalar, y: Scalar, z: Scalar) -> (v: Vec3)
        ensures
            v == Vec3(x, y, z),
    {
        Vec3(x, y, z)
    }

    /// The first component.
    pub fn x(self) -> (r: Scalar)
        ensures
            r == self.0,
    {
        self.0
    }

    /// The second component.
    pub fn y(self) -> (r: Scalar)
        ensures
            r == self.1,
    {
        self.1
    }

    /// The third component.
    pub fn z(self) -> (r: Scalar)
        ensures
            r == self.2,
    {
        self.2
    }

    /// The opposite vector.
    pub fn neg(self) -> (v: Vec3)
        ensures
            v == self.negated(),
    {
        Vec3(self.0.neg(), self.1.neg(), self.2.neg())
    }

    /// Whether the vector is too short to serve as a direction.
    pub fn near_zero(self) -> (r: bool)
        ensures
            r == self.negligible(),
    {
        let s = Scalar::from_bits(NEAR_ZERO_BITS);
        self.0.abs().lt(s) && self.1.abs().lt(s) && self.2.abs().lt(s)
    }
}

/// `NEAR_ZERO_BITS` is a double nearest to 1e-8.
pub proof fn lemma_near_zero_threshold()
    ensures
        Scalar::of(NEAR_ZERO_BITS).approximates(1, 100_000_000),
        Scalar::of(NEAR_ZERO_BITS).fraction() != 0,
{
    let c = Scalar::of(NEAR_ZERO_BITS);
    assert(c.exponent() == 996 && c.fraction() == 0x5_798E_E230_8C3A);
    lemma2_to64();
    lemma_pow2_adds(64, 15);
    assert(pow2(79) == 0x8000_0000_0000_0000_0000);
    lemma_significand_approximates(c, 1, 100_000_000, 79);
}

} // verus!
