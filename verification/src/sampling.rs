//! Rejection sampling of random directions.
//!
//! A random point of the unit ball, or of the unit disk, is found by drawing
//! points of the enclosing cube, or square, until one lies inside.

use vstd::prelude::*;
use crate::scalar::{Scalar, ONE_BITS};

verus! {

/// Whether a drawn point is kept: its squared length is below 1. A squared
/// length that is not a number is not.
pub fn accepts(length_squared: Scalar) -> (r: bool)
    ensures
        r == length_squared.below(Scalar::of(ONE_BITS)),
{
    length_squared.lt(Scalar::from_bits(ONE_BITS))
}

} // verus!
