//! The color value type and the distance metric used for palette lookup.

use vstd::prelude::*;

verus! {

/// An RGBA color: four 8-bit channels. Alpha takes part in the distance
/// metric like any other channel; it is never treated as a blend factor.
#[derive(Clone, Copy, PartialEq, Eq, Structural, Debug)]
pub struct Color {
    pub r: u8,
    pub g: u8,
    pub b: u8,
    pub a: u8,
}

/// The square of an integer.
pub open spec fn sq(x: int) -> int {
    x * x
}

/// Squared Euclidean distance between two colors over all four channels.
///
/// Comparisons of squared distances order colors exactly as comparisons of
/// the Euclidean distances themselves, so nearest-color search is stated
/// over this exact integer quantity.
pub open spec fn dist2(c1: Color, c2: Color) -> int {
    sq(c1.r - c2.r) + sq(c1.g - c2.g) + sq(c1.b - c2.b) + sq(c1.a - c2.a)
}

/// A square is never negative.
pub proof fn lemma_sq_nonneg(x: int)
    ensures
        sq(x) >= 0,
{
    assert(x * x >= 0) by (nonlinear_arith);
}

/// A square is zero only at zero.
pub proof fn lemma_sq_zero(x: int)
    ensures
        sq(x) == 0 <==> x == 0,
{
    assert(x * x == 0 <==> x == 0) by (nonlinear_arith);
}

/// The distance of a color to itself is zero, and a distance of zero
/// forces the two colors to be equal channel by channel.
pub proof fn lemma_dist2_zero(c1: Color, c2: Color)
    ensures
        dist2(c1, c2) >= 0,
        dist2(c1, c2) == 0 <==> c1 == c2,
{
    lemma_sq_nonneg(c1.r - c2.r);
    lemma_sq_nonneg(c1.g - c2.g);
    lemma_sq_nonneg(c1.b - c2.b);
    lemma_sq_nonneg(c1.a - c2.a);
    lemma_sq_zero(c1.r - c2.r);
    lemma_sq_zero(c1.g - c2.g);
    lemma_sq_zero(c1.b - c2.b);
    lemma_sq_zero(c1.a - c2.a);
}

/// Squared difference of one pair of channels, without overflow.
fn channel_diff_sq(a: u8, b: u8) -> (r: u32)
    ensures
        r == sq(a - b),
        r <= 65025,
{
    let d: u32 = if a >= b {
        a as u32 - b as u32
    } else {
        b as u32 - a as u32
    };
    assert(d * d == sq(a - b) && d * d <= 65025) by (nonlinear_arith)
        requires
            d == if a >= b { a - b } else { b - a },
            0 <= d <= 255,
    ;
    d * d
}

/// Squared Euclidean distance between two colors, as executable code.
pub fn distance_sq(c1: &Color, c2: &Color) -> (r: u32)
    ensures
        r == dist2(*c1, *c2),
{
    channel_diff_sq(c1.r, c2.r) + channel_diff_sq(c1.g, c2.g) + channel_diff_sq(c1.b, c2.b)
        + channel_diff_sq(c1.a, c2.a)
}

} // verus!
