//! A compact, copyable 24-bit RGB colour value with saturating, normalised
//! and interpolating channel arithmetic.
//!
//! Every operation returns a new value; each channel always stays in
//! `[0, 255]`, by saturation rather than wraparound. Division by a zero
//! scalar is a caller-contract violation and is excluded by precondition.

use vstd::prelude::*;

verus! {

use vstd::arithmetic::div_mod::lemma_div_is_ordered;
use vstd::arithmetic::div_mod::lemma_div_multiples_vanish;
use vstd::arithmetic::div_mod::lemma_div_nonincreasing;
use vstd::arithmetic::div_mod::lemma_div_pos_is_pos;
use vstd::arithmetic::mul::lemma_mul_nonnegative;
use vstd::arithmetic::mul::lemma_mul_upper_bound;

/// Clamps a mathematical channel value to the 8-bit maximum.
pub open spec fn clamped(x: int) -> int {
    if x > 255 {
        255
    } else {
        x
    }
}

/// A channel pulled up to a minimum: `max(c, min)`.
pub open spec fn floor_channel(c: int, min: int) -> int {
    if c > min {
        c
    } else {
        min
    }
}

/// A channel capped at a maximum: `min(c, max)`.
pub open spec fn ceil_channel(c: int, max: int) -> int {
    if c < max {
        c
    } else {
        max
    }
}

/// Channel addition, clamped to 255 on overflow.
pub open spec fn sat_add_channel(a: int, b: int) -> int {
    clamped(a + b)
}

/// Channel subtraction, clamped to 0 on underflow.
pub open spec fn sat_sub_channel(a: int, b: int) -> int {
    if a >= b {
        a - b
    } else {
        0
    }
}

/// Channel scaling: the product, clamped to 255.
pub open spec fn sat_mul_channel(c: int, scalar: int) -> int {
    clamped(c * scalar)
}

/// Channel division: the quotient, rounded down.
pub open spec fn div_channel(c: int, scalar: int) -> int
    recommends
        scalar > 0,
{
    c / scalar
}

/// Channel scaling by a ratio: multiply, divide rounding down, then clamp.
pub open spec fn mul_div_channel(c: int, numerator: int, denominator: int) -> int
    recommends
        denominator > 0,
{
    clamped((c * numerator) / denominator)
}

/// Normalised channel product, where 255 stands for 1.0:
/// `(a * b) / 255`, rounded down. Never exceeds 255 when both inputs
/// are channels, so no clamp is involved.
pub open spec fn norm_mul_channel(a: int, b: int) -> int {
    (a * b) / 255
}

/// Multiplies one channel by a scalar in a 64-bit intermediate, then
/// clamps to 255.
fn sat_mul_channel_exec(c: u8, scalar: u32) -> (result: u8)
    ensures
        result == sat_mul_channel(c as int, scalar as int),
{
    proof {
        lemma_mul_upper_bound(c as int, 255, scalar as int, 0xffff_ffff);
        lemma_mul_nonnegative(c as int, scalar as int);
    }
    let wide: u64 = (c as u64) * (scalar as u64);
    if wide > 255 {
        255
    } else {
        wide as u8
    }
}

/// Divides one channel by a non-zero scalar, rounding down.
fn div_channel_exec(c: u8, scalar: u32) -> (result: u8)
    requires
        scalar != 0,
    ensures
        result == div_channel(c as int, scalar as int),
{
    proof {
        lemma_div_nonincreasing(c as int, scalar as int);
        lemma_div_pos_is_pos(c as int, scalar as int);
    }
    let wide: u32 = (c as u32) / scalar;
    wide as u8
}

/// Scales one channel by `numerator / denominator` in a 64-bit
/// intermediate: multiply first, divide rounding down, then clamp to 255.
fn mul_div_channel_exec(c: u8, numerator: u32, denominator: u32) -> (result: u8)
    requires
        denominator != 0,
    ensures
        result == mul_div_channel(c as int, numerator as int, denominator as int),
{
    proof {
        lemma_mul_upper_bound(c as int, 255, numerator as int, 0xffff_ffff);
        lemma_mul_nonnegative(c as int, numerator as int);
        lemma_div_pos_is_pos((c as int) * (numerator as int), denominator as int);
    }
    let wide: u64 = (c as u64) * (numerator as u64) / (denominator as u64);
    if wide > 255 {
        255
    } else {
        wide as u8
    }
}

/// Normalised product of two channel-range values: `(a * b) / 255`,
/// computed in 32 bits. The result always fits a channel again.
fn norm_mul_channel_exec(a: u8, b: u8) -> (result: u8)
    ensures
        result == norm_mul_channel(a as int, b as int),
{
    proof {
        lemma_mul_upper_bound(a as int, 255, b as int, 255);
        lemma_mul_nonnegative(a as int, b as int);
        lemma_div_is_ordered((a as int) * (b as int), 255int * 255int, 255);
        lemma_div_pos_is_pos((a as int) * (b as int), 255);
    }
    let wide: u32 = (a as u32) * (b as u32) / 255;
    wide as u8
}

/// Linear interpolation of one channel at fractional position `by / 255`:
/// `from + (to - from) * by / 255`, the scaled difference rounded toward
/// zero as in the rest of the normalised arithmetic.
pub open spec fn lerp_channel(from: int, to: int, by: int) -> int {
    if to >= from {
        from + ((to - from) * by) / 255
    } else {
        from - ((from - to) * by) / 255
    }
}

/// Interpolates one channel between `from` and `to` at position `by / 255`,
/// computed in 32 bits.
fn lerp_channel_exec(from: u8, to: u8, by: u8) -> (result: u8)
    ensures
        result == lerp_channel(from as int, to as int, by as int),
{
    if to >= from {
        let delta: u32 = (to - from) as u32;
        proof {
            lemma_lerp_step_bounded(delta as int, by as int);
        }
        let step: u32 = delta * (by as u32) / 255;
        (from as u32 + step) as u8
    } else {
        let delta: u32 = (from - to) as u32;
        proof {
            lemma_lerp_step_bounded(delta as int, by as int);
        }
        let step: u32 = delta * (by as u32) / 255;
        (from as u32 - step) as u8
    }
}

/// The scaled channel difference `(delta * by) / 255` never overshoots the
/// difference itself while the fraction `by` is at most 255.
proof fn lemma_lerp_step_bounded(delta: int, by: int)
    requires
        0 <= delta <= 255,
        0 <= by <= 255,
    ensures
        0 <= (delta * by) / 255 <= delta,
{
    lemma_mul_upper_bound(delta, delta, by, 255);
    lemma_mul_nonnegative(delta, by);
    lemma_div_is_ordered(delta * by, delta * 255, 255);
    lemma_div_multiples_vanish(delta, 255);
    lemma_div_pos_is_pos(delta * by, 255);
}

/// A colour as three 8-bit channels: red, green, blue.
///
/// Ordering is lexicographic (red, then green, then blue); equality is
/// exact and channel-wise.
#[derive(Debug, Clone, Copy, PartialEq, Eq, Structural, PartialOrd, Ord, Hash)]
pub struct Rgb24 {
    pub r: u8,
    pub g: u8,
    pub b: u8,
}

impl Rgb24 {
    /// Builds a colour directly from its three channels.
    pub fn new(r: u8, g: u8, b: u8) -> (result: Self)
        ensures
            result == (Rgb24 { r, g, b }),
    {
        Self { r, g, b }
    }

    /// Builds an achromatic grey: all three channels equal to `c`.
    pub fn new_grey(c: u8) -> (result: Self)
        ensures
            result == (Rgb24 { r: c, g: c, b: c }),
    {
        Self::new(c, c, c)
    }

    /// Pulls each channel up to at least `min`, independently.
    pub fn floor(self, min: u8) -> (result: Self)
        ensures
            result.r == floor_channel(self.r as int, min as int),
            result.g == floor_channel(self.g as int, min as int),
            result.b == floor_channel(self.b as int, min as int),
    {
        Self {
            r: if self.r > min { self.r } else { min },
            g: if self.g > min { self.g } else { min },
            b: if self.b > min { self.b } else { min },
        }
    }

    /// Caps each channel at no more than `max`, independently.
    pub fn ceil(self, max: u8) -> (result: Self)
        ensures
            result.r == ceil_channel(self.r as int, max as int),
            result.g == ceil_channel(self.g as int, max as int),
            result.b == ceil_channel(self.b as int, max as int),
    {
        Self {
            r: if self.r < max { self.r } else { max },
            g: if self.g < max { self.g } else { max },
            b: if self.b < max { self.b } else { max },
        }
    }

    /// Adds the colours channel by channel, clamping each sum to 255
    /// instead of wrapping.
    pub fn saturating_add(self, other: Self) -> (result: Self)
        ensures
            result.r == sat_add_channel(self.r as int, other.r as int),
            result.g == sat_add_channel(self.g as int, other.g as int),
            result.b == sat_add_channel(self.b as int, other.b as int),
    {
        Self {
            r: self.r.saturating_add(other.r),
            g: self.g.saturating_add(other.g),
            b: self.b.saturating_add(other.b),
        }
    }

    /// Subtracts the colours channel by channel, clamping each difference
    /// to 0 instead of wrapping.
    pub fn saturating_sub(self, other: Self) -> (result: Self)
        ensures
            result.r == sat_sub_channel(self.r as int, other.r as int),
            result.g == sat_sub_channel(self.g as int, other.g as int),
            result.b == sat_sub_channel(self.b as int, other.b as int),
    {
        Self {
            r: self.r.saturating_sub(other.r),
            g: self.g.saturating_sub(other.g),
            b: self.b.saturating_sub(other.b),
        }
    }

    /// Multiplies every channel by an unbounded scalar; each product is
    /// clamped to 255. Enormous scalars simply saturate every channel.
    pub fn saturating_scalar_mul(self, scalar: u32) -> (result: Self)
        ensures
            result.r == sat_mul_channel(self.r as int, scalar as int),
            result.g == sat_mul_channel(self.g as int, scalar as int),
            result.b == sat_mul_channel(self.b as int, scalar as int),
    {
        Self {
            r: sat_mul_channel_exec(self.r, scalar),
            g: sat_mul_channel_exec(self.g, scalar),
            b: sat_mul_channel_exec(self.b, scalar),
        }
    }

    /// Divides every channel by a scalar, rounding down. A zero scalar is
    /// a caller-contract violation, excluded by precondition.
    pub fn scalar_div(self, scalar: u32) -> (result: Self)
        requires
            scalar != 0,
        ensures
            result.r == div_channel(self.r as int, scalar as int),
            result.g == div_channel(self.g as int, scalar as int),
            result.b == div_channel(self.b as int, scalar as int),
    {
        Self {
            r: div_channel_exec(self.r, scalar),
            g: div_channel_exec(self.g, scalar),
            b: div_channel_exec(self.b, scalar),
        }
    }

    /// Scales every channel by `numerator / denominator`: multiply first,
    /// then divide rounding down, then clamp to 255. A zero denominator is
    /// a caller-contract violation, excluded by precondition.
    pub fn saturating_scalar_mul_div(self, numerator: u32, denominator: u32) -> (result: Self)
        requires
            denominator != 0,
        ensures
            result.r == mul_div_channel(self.r as int, numerator as int, denominator as int),
            result.g == mul_div_channel(self.g as int, numerator as int, denominator as int),
            result.b == mul_div_channel(self.b as int, numerator as int, denominator as int),
    {
        Self {
            r: mul_div_channel_exec(self.r, numerator, denominator),
            g: mul_div_channel_exec(self.g, numerator, denominator),
            b: mul_div_channel_exec(self.b, numerator, denominator),
        }
    }

    /// Blends the colours channel by channel with 255 standing for 1.0:
    /// each result channel is `(a * b) / 255`, rounded down.
    pub fn normalised_mul(self, other: Self) -> (result: Self)
        ensures
            result.r == norm_mul_channel(self.r as int, other.r as int),
            result.g == norm_mul_channel(self.g as int, other.g as int),
            result.b == norm_mul_channel(self.b as int, other.b as int),
    {
        Self {
            r: norm_mul_channel_exec(self.r, other.r),
            g: norm_mul_channel_exec(self.g, other.g),
            b: norm_mul_channel_exec(self.b, other.b),
        }
    }

    /// Scales every channel by `scalar / 255`, with 255 standing for 1.0.
    pub fn normalised_scalar_mul(self, scalar: u8) -> (result: Self)
        ensures
            result.r == norm_mul_channel(self.r as int, scalar as int),
            result.g == norm_mul_channel(self.g as int, scalar as int),
            result.b == norm_mul_channel(self.b as int, scalar as int),
    {
        Self {
            r: norm_mul_channel_exec(self.r, scalar),
            g: norm_mul_channel_exec(self.g, scalar),
            b: norm_mul_channel_exec(self.b, scalar),
        }
    }

    /// The point a fraction `by / 255` of the way along the straight line
    /// from `self` to `to` in colour space: every channel moves by the same
    /// fraction, so the result is never outside the per-channel range
    /// spanned by the two endpoints.
    pub fn linear_interpolate(self, to: Self, by: u8) -> (result: Self)
        ensures
            result.r == lerp_channel(self.r as int, to.r as int, by as int),
            result.g == lerp_channel(self.g as int, to.g as int, by as int),
            result.b == lerp_channel(self.b as int, to.b as int, by as int),
    {
        Self {
            r: lerp_channel_exec(self.r, to.r, by),
            g: lerp_channel_exec(self.g, to.g, by),
            b: lerp_channel_exec(self.b, to.b, by),
        }
    }
}

/// Saturating channel arithmetic never leaves the 8-bit range: for
/// channel values, the clamped sum stays at most 255 and the clamped
/// difference stays at least 0.
pub proof fn lemma_saturating_channel_in_range(a: int, b: int)
    requires
        0 <= a <= 255,
        0 <= b <= 255,
    ensures
        0 <= sat_add_channel(a, b) <= 255,
        0 <= sat_sub_channel(a, b) <= 255,
{
}

/// A full-intensity channel is the identity of normalised multiplication:
/// multiplying any channel by 255 and renormalising gives it back, so a
/// white colour leaves the other operand unchanged.
pub proof fn lemma_norm_mul_identity(b: int)
    requires
        0 <= b <= 255,
    ensures
        norm_mul_channel(255, b) == b,
        norm_mul_channel(b, 255) == b,
{
    lemma_div_multiples_vanish(b, 255);
}

/// `floor(0)` and `ceil(255)` change nothing: every channel already lies
/// in `[0, 255]`.
pub proof fn lemma_floor_ceil_noop(c: Rgb24)
    ensures
        floor_channel(c.r as int, 0) == c.r as int,
        floor_channel(c.g as int, 0) == c.g as int,
        floor_channel(c.b as int, 0) == c.b as int,
        ceil_channel(c.r as int, 255) == c.r as int,
        ceil_channel(c.g as int, 255) == c.g as int,
        ceil_channel(c.b as int, 255) == c.b as int,
{
}

/// Interpolating between two channel values at any fraction lands between
/// them: at least the smaller endpoint and at most the larger, whichever
/// way round the endpoints come. Repeated sampling along the line between
/// two colours therefore never leaves the per-channel range they span.
pub proof fn lemma_lerp_channel_within_endpoints(from: int, to: int, by: int)
    requires
        0 <= from <= 255,
        0 <= to <= 255,
        0 <= by <= 255,
    ensures
        lerp_channel(from, to, by) >= (if from <= to {
            from
        } else {
            to
        }),
        lerp_channel(from, to, by) <= (if from <= to {
            to
        } else {
            from
        }),
{
    if to >= from {
        lemma_lerp_step_bounded(to - from, by);
    } else {
        lemma_lerp_step_bounded(from - to, by);
    }
}

} // verus!
