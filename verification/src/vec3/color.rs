//! Colours as lines of a plain-text image.

use vstd::prelude::*;
use vstd::arithmetic::div_mod::*;
use vstd::arithmetic::power2::*;
use vstd::bits::*;
use crate::scalar::{
    lemma_rank_orders_values, lemma_significand_approximates, Scalar, HIDDEN_BIT,
};
use crate::text::{decimal, push_decimal};
use crate::vec3::Color;

verus! {

/// The brightest channel value that is written: the double nearest to 0.999.
pub const CEILING_BITS: u64 = 0x3FEF_F7CE_D916_872B;

/// The level from 0 to 255 that stands for a channel: the channel is held
/// between 0 and 0.999, multiplied by 256 and cut to a whole number. A
/// channel that is not a number has level 0.
pub open spec fn level(channel: Scalar) -> int {
    let held = channel.clamped(Scalar::of(0), Scalar::of(CEILING_BITS));
    if held.nan() {
        0
    } else {
        (256 * held.units()) / (pow2(1074) as int)
    }
}

/// The text of a pixel: the levels of red, green and blue, a blank between
/// them.
pub open spec fn pixel_text(color: Color) -> Seq<char> {
    decimal(level(color.0) as nat) + seq![' '] + decimal(level(color.1) as nat) + seq![' ']
        + decimal(level(color.2) as nat)
}

/// `CEILING_BITS` is a double nearest to 0.999.
pub proof fn lemma_ceiling()
    ensures
        Scalar::of(CEILING_BITS).approximates(999, 1000),
        Scalar::of(CEILING_BITS).fraction() != 0,
{
    let c = Scalar::of(CEILING_BITS);
    assert(c.exponent() == 1022 && c.fraction() == 0xF_F7CE_D916_872B);
    lemma2_to64_rest();
    lemma_significand_approximates(c, 999, 1000, 53);
}

/// The level of a channel between 0 and 0.999, read off its exponent and
/// significand: nothing under 2^-8 reaches level 1, and from there on the
/// level is the significand without the bits that weigh less than 1/256.
proof fn lemma_level_of_held(held: Scalar)
    requires
        !held.nan(),
        0 <= held.rank() <= CEILING_BITS,
    ensures
        held.exponent() <= 1022,
        held.exponent() < 1015 ==> (256 * held.units()) / (pow2(1074) as int) == 0,
        held.exponent() >= 1015 ==> (256 * held.units()) / (pow2(1074) as int) == held.significand()
            / pow2((1067 - held.exponent()) as nat),
        held.exponent() >= 1015 ==> 0 <= held.significand() / pow2(
            (1067 - held.exponent()) as nat,
        ) < 256,
{
    let e = held.exponent();
    let sig = held.significand() as int;
    let scale = held.scale();
    let p = pow2(scale) as int;
    let whole = pow2(1074) as int;
    lemma2_to64();
    lemma2_to64_rest();
    lemma_pow2_pos(scale);
    lemma_pow2_pos(1074);
    assert(held.units() == sig * p) by (nonlinear_arith)
        requires
            held.units() == sig * p || (held.units() == -(sig * p) && sig == 0),
    ;
    assert(sig < 0x20_0000_0000_0000);
    if e < 1015 {
        lemma_pow2_adds(61, scale);
        if scale + 61 < 1074 {
            lemma_pow2_strictly_increases(scale + 61, 1074);
        }
        assert(0 <= 256 * (sig * p) < whole) by (nonlinear_arith)
            requires
                0 <= sig < 0x20_0000_0000_0000,
                p > 0,
                0x2000_0000_0000_0000 * p <= whole,
        ;
        lemma_basic_div(256 * (sig * p), whole);
    } else {
        let shift = (1067 - e) as nat;
        let low = pow2(shift) as int;
        let high = pow2(scale + 8) as int;
        lemma_pow2_pos(shift);
        lemma_pow2_pos(scale + 8);
        lemma_pow2_adds(8, scale);
        lemma_pow2_adds(scale + 8, shift);
        assert(256 * (sig * p) == high * sig) by (nonlinear_arith)
            requires
                high == 256 * p,
        ;
        lemma_div_multiples_vanish_quotient(high, sig, low);
        assert(low >= 0x2000_0000_0000) by {
            if shift > 45 {
                lemma_pow2_strictly_increases(45, shift);
            }
        }
        assert(0 <= sig / low < 256) by (nonlinear_arith)
            requires
                0 <= sig < 0x20_0000_0000_0000,
                low >= 0x2000_0000_0000,
        ;
    }
}

/// The level, part by part. What is no number, or at most zero, has level 0;
/// what is 0.999 or more has level 255. Between the two the level lies from
/// 0 to 255: it is 0 under 2^-8, and from there on it is the significand
/// without its bits that weigh less than 1/256.
pub proof fn lemma_level_by_parts(channel: Scalar)
    ensures
        0 <= level(channel) <= 255,
        channel.nan() ==> level(channel) == 0,
        channel.at_most(Scalar::of(0)) ==> level(channel) == 0,
        Scalar::of(CEILING_BITS).at_most(channel) ==> level(channel) == 255,
        Scalar::of(0).below(channel) && channel.below(Scalar::of(CEILING_BITS)) ==> level(channel)
            == (if channel.exponent() < 1015 {
            0
        } else {
            (channel.significand() / pow2((1067 - channel.exponent()) as nat)) as int
        }),
{
    let held = channel.clamped(Scalar::of(0), Scalar::of(CEILING_BITS));
    if !held.nan() {
        lemma_level_of_held(held);
        if Scalar::of(CEILING_BITS).at_most(channel) {
            lemma2_to64_rest();
            assert(held == Scalar::of(CEILING_BITS));
            assert(held.exponent() == 1022 && held.significand() == 0x1F_F7CE_D916_872B);
            assert(0x1F_F7CE_D916_872Bint / 0x2000_0000_0000int == 255);
        }
    }
}

/// A brighter channel has no lower level.
pub proof fn lemma_level_is_monotone(darker: Scalar, brighter: Scalar)
    requires
        darker.at_most(brighter),
    ensures
        level(darker) <= level(brighter),
{
    let low = darker.clamped(Scalar::of(0), Scalar::of(CEILING_BITS));
    let high = brighter.clamped(Scalar::of(0), Scalar::of(CEILING_BITS));
    lemma_rank_orders_values(low, high);
    lemma_pow2_pos(1074);
    lemma_div_is_ordered(256 * low.units(), 256 * high.units(), pow2(1074) as int);
}

/// The level from 0 to 255 of a gamma-corrected channel.
pub fn channel_level(channel: Scalar) -> (n: u8)
    ensures
        n == level(channel),
        channel.nan() || channel.at_most(Scalar::of(0)) ==> n == 0,
        Scalar::of(CEILING_BITS).at_most(channel) ==> n == 255,
{
    let held = channel.clamp(Scalar::from_bits(0), Scalar::from_bits(CEILING_BITS));
    proof {
        lemma_level_by_parts(channel);
    }
    if held.is_nan() {
        return 0;
    }
    let magnitude: u64 = held.abs().to_bits();
    let exponent: u64 = magnitude / HIDDEN_BIT;
    proof {
        lemma_level_of_held(held);
    }
    if exponent < 1015 {
        return 0;
    }
    let significand: u64 = magnitude % HIDDEN_BIT + HIDDEN_BIT;
    let shift: u64 = 1067 - exponent;
    proof {
        lemma_u64_shr_is_div(significand, shift);
    }
    (significand >> shift) as u8
}

/// Appends to `out` the text of a pixel of the given colour, whose channels
/// are gamma-corrected already.
pub fn push_pixel(out: &mut String, color: &Color)
    ensures
        final(out)@ == old(out)@ + pixel_text(*color),
{
    push_decimal(out, channel_level(color.0) as u64);
    out.push(' ');
    push_decimal(out, channel_level(color.1) as u64);
    out.push(' ');
    push_decimal(out, channel_level(color.2) as u64);
    assert(out@ =~= old(out)@ + pixel_text(*color));
}

/// The line of a plain-text image that stands for a colour whose channels
/// are gamma-corrected already.
pub fn pixel_line(color: &Color) -> (line: String)
    ensures
        line@ == pixel_text(*color),
{
    let mut line = String::new();
    push_pixel(&mut line, color);
    assert(line@ =~= pixel_text(*color));
    line
}

} // verus!
