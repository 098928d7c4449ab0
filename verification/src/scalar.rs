//! Double-precision numbers held by their IEEE-754 bit patterns.
//!
//! The renderer's arithmetic is done by the caller in hardware floating point.
//! What the renderer *decides* depends only on the order and the sign of the
//! numbers it is handed, and both can be read off the bit pattern with integer
//! arithmetic alone. This module gives that reading a precise meaning: every
//! finite pattern denotes an exact multiple of 2^-1074, and the comparisons
//! below are the comparisons of those exact values.

use vstd::prelude::*;
use vstd::arithmetic::power2::*;

verus! {

/// The bit that carries the sign.
pub const SIGN_BIT: u64 = 0x8000_0000_0000_0000;

/// Magnitude of an infinity. Every larger magnitude is a NaN.
pub const INFINITY_BITS: u64 = 0x7FF0_0000_0000_0000;

/// Weight of the lowest exponent bit, 2^52. It is also the leading bit that a
/// normal number's significand has without storing it.
pub const HIDDEN_BIT: u64 = 0x0010_0000_0000_0000;

/// Pattern of the number 1.
pub const ONE_BITS: u64 = 0x3FF0_0000_0000_0000;

/// A double-precision number, known by its bit pattern.
///
/// Two scalars are equal when their patterns are, so `-0` and `+0` are
/// different scalars although neither is below the other.
#[derive(Clone, Copy, Debug, PartialEq, Eq, Structural)]
pub struct Scalar {
    pub bits: u64,
}

impl Scalar {
    /// The scalar with the given bit pattern.
    pub open spec fn of(bits: u64) -> Scalar {
        Scalar { bits }
    }

    /// The sign bit is set. This holds of `-0` and of half the NaNs too.
    pub open spec fn negative(self) -> bool {
        self.bits >= SIGN_BIT
    }

    /// The pattern without its sign bit.
    pub open spec fn magnitude(self) -> nat {
        if self.bits >= SIGN_BIT {
            (self.bits - SIGN_BIT) as nat
        } else {
            self.bits as nat
        }
    }

    /// The pattern is not a number.
    pub open spec fn nan(self) -> bool {
        self.magnitude() > INFINITY_BITS
    }

    /// The pattern is a number other than an infinity.
    pub open spec fn finite(self) -> bool {
        self.magnitude() < INFINITY_BITS
    }

    /// Place on the extended real line: patterns of numbers are ranked as the
    /// numbers they denote, `-0` and `+0` share rank 0, and the infinities
    /// come first and last.
    pub open spec fn rank(self) -> int {
        if self.negative() {
            -(self.magnitude() as int)
        } else {
            self.magnitude() as int
        }
    }

    /// The biased exponent field, from 0 to 2047.
    pub open spec fn exponent(self) -> nat {
        self.magnitude() / (HIDDEN_BIT as nat)
    }

    /// The 52 stored bits of the significand.
    pub open spec fn fraction(self) -> nat {
        self.magnitude() % (HIDDEN_BIT as nat)
    }

    /// The significand as an integer: the stored bits, and the hidden leading
    /// bit where the number is normal.
    pub open spec fn significand(self) -> nat {
        if self.exponent() == 0 {
            self.fraction()
        } else {
            self.fraction() + HIDDEN_BIT as nat
        }
    }

    /// The power of two by which the significand is scaled, counted from the
    /// smallest one, 2^-1074.
    pub open spec fn scale(self) -> nat {
        if self.exponent() == 0 {
            0
        } else {
            (self.exponent() - 1) as nat
        }
    }

    /// The exact value of a finite scalar, in units of 2^-1074.
    pub open spec fn units(self) -> int {
        if self.negative() {
            -((self.significand() * pow2(self.scale())) as int)
        } else {
            (self.significand() * pow2(self.scale())) as int
        }
    }

    /// `self` is finite and lies within half a unit in its last place of the
    /// fraction `num / den`, where `den` is positive. Of a scalar with stored
    /// significand bits this says that no double is nearer to the fraction:
    /// its neighbours are a whole unit away.
    pub open spec fn approximates(self, num: int, den: int) -> bool {
        &&& self.finite()
        &&& 2 * (den * self.units() - num * pow2(1074)) <= den * pow2(self.scale())
        &&& 2 * (num * pow2(1074) - den * self.units()) <= den * pow2(self.scale())
    }

    /// `self < other` as doubles compare: false where either is a NaN.
    pub open spec fn below(self, other: Scalar) -> bool {
        !self.nan() && !other.nan() && self.rank() < other.rank()
    }

    /// `self <= other` as doubles compare: false where either is a NaN.
    pub open spec fn at_most(self, other: Scalar) -> bool {
        !self.nan() && !other.nan() && self.rank() <= other.rank()
    }

    /// The scalar with the same magnitude and the other sign.
    pub open spec fn negated(self) -> Scalar {
        if self.bits >= SIGN_BIT {
            Scalar { bits: (self.bits - SIGN_BIT) as u64 }
        } else {
            Scalar { bits: (self.bits + SIGN_BIT) as u64 }
        }
    }

    /// The scalar with the same magnitude and a clear sign bit.
    pub open spec fn absolute(self) -> Scalar {
        Scalar { bits: self.magnitude() as u64 }
    }

    /// The smaller of the two; `other` where `self` is a NaN, and `self` where
    /// the two rank equal or `other` is a NaN.
    pub open spec fn minimum(self, other: Scalar) -> Scalar {
        if self.nan() || other.below(self) {
            other
        } else {
            self
        }
    }

    /// `self` brought into `[low, high]`; a NaN stays what it is.
    pub open spec fn clamped(self, low: Scalar, high: Scalar) -> Scalar {
        if self.below(low) {
            low
        } else if high.below(self) {
            high
        } else {
            self
        }
    }

    /// The scalar with the given bit pattern.
    pub fn from_bits(bits: u64) -> (r: Scalar)
        ensures
            r == Scalar::of(bits),
    {
        Scalar { bits }
    }

    /// The bit pattern.
    pub fn to_bits(self) -> (bits: u64)
        ensures
            bits == self.bits,
    {
        self.bits
    }

    fn magnitude_bits(self) -> (m: u64)
        ensures
            m == self.magnitude(),
    {
        if self.bits >= SIGN_BIT {
            self.bits - SIGN_BIT
        } else {
            self.bits
        }
    }

    /// Whether the pattern is not a number.
    pub fn is_nan(self) -> (r: bool)
        ensures
            r == self.nan(),
    {
        self.magnitude_bits() > INFINITY_BITS
    }

    /// Whether the scalar is `+0` or `-0`.
    pub fn is_zero(self) -> (r: bool)
        ensures
            r == (self.magnitude() == 0),
            r == (!self.nan() && self.rank() == 0),
    {
        self.magnitude_bits() == 0
    }

    /// `self < other`, as the doubles compare.
    pub fn lt(self, other: Scalar) -> (r: bool)
        ensures
            r == self.below(other),
    {
        let a: u64 = self.magnitude_bits();
        let b: u64 = other.magnitude_bits();
        if a > INFINITY_BITS || b > INFINITY_BITS {
            false
        } else if self.bits >= SIGN_BIT {
            if other.bits >= SIGN_BIT {
                b < a
            } else {
                a != 0 || b != 0
            }
        } else {
            other.bits < SIGN_BIT && a < b
        }
    }

    /// `self > other`, as the doubles compare.
    pub fn gt(self, other: Scalar) -> (r: bool)
        ensures
            r == other.below(self),
    {
        other.lt(self)
    }

    /// `-self`: the sign bit flipped, of any pattern.
    pub fn neg(self) -> (r: Scalar)
        ensures
            r == self.negated(),
    {
        if self.bits >= SIGN_BIT {
            Scalar { bits: self.bits - SIGN_BIT }
        } else {
            Scalar { bits: self.bits + SIGN_BIT }
        }
    }

    /// `|self|`: the sign bit cleared, of any pattern.
    pub fn abs(self) -> (r: Scalar)
        ensures
            r == self.absolute(),
    {
        Scalar { bits: self.magnitude_bits() }
    }

    /// The smaller of `self` and `other`, the one that is a number where the
    /// other is not.
    pub fn min(self, other: Scalar) -> (r: Scalar)
        ensures
            r == self.minimum(other),
            r == self || r == other,
            !self.nan() && !other.nan() ==> r.at_most(self) && r.at_most(other),
    {
        if self.is_nan() || other.lt(self) {
            other
        } else {
            self
        }
    }

    /// `self` restricted to the interval from `low` to `high`.
    pub fn clamp(self, low: Scalar, high: Scalar) -> (r: Scalar)
        requires
            low.at_most(high),
        ensures
            r == self.clamped(low, high),
            self.nan() ==> r == self,
            !self.nan() ==> low.at_most(r) && r.at_most(high),
    {
        if self.lt(low) {
            low
        } else if high.lt(self) {
            high
        } else {
            self
        }
    }
}

/// Of two finite magnitudes the smaller one denotes the smaller absolute value.
proof fn lemma_magnitude_orders_values(a: Scalar, b: Scalar)
    requires
        a.finite(),
        b.finite(),
        a.magnitude() < b.magnitude(),
    ensures
        a.significand() * pow2(a.scale()) < b.significand() * pow2(b.scale()),
{
    let h = HIDDEN_BIT as nat;
    let (ea, fa) = (a.exponent(), a.fraction());
    let (eb, fb) = (b.exponent(), b.fraction());
    let (pa, pb) = (pow2(a.scale()), pow2(b.scale()));
    lemma_pow2_pos(a.scale());
    lemma_pow2_pos(b.scale());
    assert(a.magnitude() == ea * h + fa && b.magnitude() == eb * h + fb);
    assert(ea <= eb) by (nonlinear_arith)
        requires
            ea * h + fa < eb * h + fb,
            fa < h,
            fb < h,
    ;
    if ea == eb {
        assert(a.significand() < b.significand());
        assert(a.significand() * pa < b.significand() * pb) by (nonlinear_arith)
            requires
                a.significand() < b.significand(),
                pa == pb,
                pa > 0,
        ;
    } else if ea == 0 {
        lemma2_to64();
        assert(a.significand() * pa == fa) by (nonlinear_arith)
            requires
                a.significand() == fa,
                pa == 1,
        ;
        assert(b.significand() * pb >= h) by (nonlinear_arith)
            requires
                b.significand() >= h,
                pb >= 1,
        ;
    } else {
        lemma_pow2_unfold(ea);
        if ea < eb - 1 {
            lemma_pow2_strictly_increases(ea, (eb - 1) as nat);
        }
        assert(a.significand() * pa < b.significand() * pb) by (nonlinear_arith)
            requires
                a.significand() < 2 * h,
                b.significand() >= h,
                2 * pa <= pb,
                pa > 0,
        ;
    }
}

/// Rank is faithful to value: of two finite scalars, the one of lower rank
/// denotes the smaller number, and scalars of equal rank denote the same
/// number.
pub proof fn lemma_rank_orders_values(a: Scalar, b: Scalar)
    requires
        a.finite(),
        b.finite(),
    ensures
        a.rank() < b.rank() <==> a.units() < b.units(),
        a.rank() == b.rank() <==> a.units() == b.units(),
{
    let zero = Scalar { bits: 0 };
    assert(zero.significand() * pow2(zero.scale()) == 0) by (nonlinear_arith)
        requires
            zero.significand() == 0,
    ;
    if 0 < a.magnitude() {
        lemma_magnitude_orders_values(zero, a);
    }
    if 0 < b.magnitude() {
        lemma_magnitude_orders_values(zero, b);
    }
    if a.magnitude() < b.magnitude() {
        lemma_magnitude_orders_values(a, b);
    } else if b.magnitude() < a.magnitude() {
        lemma_magnitude_orders_values(b, a);
    }
}

/// `below` is the strict order of the numbers: nothing is below itself, and
/// the relation carries through a middle term.
pub proof fn lemma_below_is_strict_order(a: Scalar, b: Scalar, c: Scalar)
    ensures
        !a.below(a),
        a.below(b) ==> !b.below(a),
        a.below(b) && b.below(c) ==> a.below(c),
        !a.nan() && !b.nan() ==> (a.below(b) || b.below(a) || a.rank() == b.rank()),
{
}

/// Negation mirrors the order, and taking it twice gives the pattern back.
pub proof fn lemma_negated(a: Scalar, b: Scalar)
    ensures
        a.negated().negated() == a,
        a.negated().nan() == a.nan(),
        a.negated().rank() == -a.rank(),
        a.below(b) <==> b.negated().below(a.negated()),
{
}

/// A positive scalar approximates a fraction if its significand does: where
/// one unit of the significand is 2^-k, so that `scale + k` is 1074, the
/// significand must lie within one half of `num / den` times 2^k.
pub proof fn lemma_significand_approximates(c: Scalar, num: int, den: int, k: nat)
    requires
        c.finite(),
        !c.negative(),
        den > 0,
        c.scale() + k == 1074,
        2 * (den * c.significand() - num * pow2(k)) <= den,
        2 * (num * pow2(k) - den * c.significand()) <= den,
    ensures
        c.approximates(num, den),
{
    let sig = c.significand() as int;
    let unit = pow2(c.scale()) as int;
    let high = pow2(k) as int;
    lemma_pow2_pos(c.scale());
    lemma_pow2_adds(k, c.scale());
    assert(c.units() == sig * unit);
    assert(pow2(1074) == high * unit);
    assert(2 * (den * (sig * unit) - num * (high * unit)) <= den * unit) by (nonlinear_arith)
        requires
            2 * (den * sig - num * high) <= den,
            unit > 0,
    ;
    assert(2 * (num * (high * unit) - den * (sig * unit)) <= den * unit) by (nonlinear_arith)
        requires
            2 * (num * high - den * sig) <= den,
            unit > 0,
    ;
}

/// `ONE_BITS` is the number 1 exactly, and `INFINITY_BITS` is above every
/// finite scalar.
pub proof fn lemma_one_and_infinity(x: Scalar)
    ensures
        Scalar::of(ONE_BITS).finite(),
        Scalar::of(ONE_BITS).units() == pow2(1074),
        !Scalar::of(INFINITY_BITS).nan(),
        !Scalar::of(INFINITY_BITS).finite(),
        x.finite() ==> x.below(Scalar::of(INFINITY_BITS)),
        !x.nan() ==> x.at_most(Scalar::of(INFINITY_BITS)),
{
    let one = Scalar::of(ONE_BITS);
    assert(one.exponent() == 1023 && one.fraction() == 0);
    lemma2_to64();
    lemma2_to64_rest();
    lemma_pow2_adds(52, 1022);
    assert(one.significand() == pow2(52));
}

} // verus!
