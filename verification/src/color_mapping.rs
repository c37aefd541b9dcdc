//! The palette: an ordered collection of reference colors with
//! nearest-color lookup under squared Euclidean distance, scanning in
//! insertion order and keeping the first color at the smallest distance.

use vstd::prelude::*;

use crate::color::{dist2, distance_sq, lemma_dist2_zero, Color};
use crate::color_threads::ColorThread;
use crate::hex_color::{decode_hex_color, spec_hex_color, valid_hex_color};

verus! {

/// Why building a palette failed.
#[derive(Clone, Copy, PartialEq, Eq, Structural, Debug)]
pub enum PaletteError {
    /// A hex color string was not `#` followed by six or eight hex digits.
    MalformedHexColor,
}

/// An ordered palette of reference colors. Duplicates are kept; order is
/// insertion order and decides ties during lookup.
pub struct ColorMapping {
    colors: Vec<Color>,
}

impl View for ColorMapping {
    type V = Seq<Color>;

    closed spec fn view(&self) -> Seq<Color> {
        self.colors@
    }
}

/// The index of the palette member a lookup returns: the first index whose
/// distance to the query is strictly smaller than that of every earlier
/// member, and no later member does strictly better. A later member with an
/// equal distance never displaces an earlier one.
pub open spec fn nearest_idx(s: Seq<Color>, q: Color) -> int
    recommends
        s.len() > 0,
    decreases s.len(),
{
    if s.len() <= 1 {
        0
    } else {
        let prev = nearest_idx(s.drop_last(), q);
        if dist2(s.last(), q) < dist2(s[prev], q) {
            s.len() - 1
        } else {
            prev
        }
    }
}

/// The color a nearest-color lookup returns.
pub open spec fn nearest_spec(s: Seq<Color>, q: Color) -> Color
    recommends
        s.len() > 0,
{
    s[nearest_idx(s, q)]
}

/// Nearest-color lookup returns a member of the palette; no member is
/// strictly closer to the query; and every member before the returned one
/// is strictly farther, so among equidistant members the first inserted
/// wins.
pub proof fn lemma_nearest_idx_properties(s: Seq<Color>, q: Color)
    requires
        s.len() > 0,
    ensures
        0 <= nearest_idx(s, q) < s.len(),
        forall|j: int| 0 <= j < s.len() ==> dist2(s[nearest_idx(s, q)], q) <= dist2(#[trigger] s[j], q),
        forall|j: int|
            0 <= j < nearest_idx(s, q) ==> dist2(#[trigger] s[j], q) > dist2(s[nearest_idx(s, q)], q),
    decreases s.len(),
{
    if s.len() > 1 {
        let sub = s.drop_last();
        lemma_nearest_idx_properties(sub, q);
        assert(forall|j: int| 0 <= j < sub.len() ==> sub[j] == #[trigger] s[j]);
    }
}

/// Tie-break determinism: if some palette member at index `i` is at the
/// minimal distance to the query, the lookup never picks a member after
/// `i`, and what it picks is at that same minimal distance. Among members
/// tied for the minimum, the earliest inserted is returned.
pub proof fn lemma_nearest_first_of_ties(s: Seq<Color>, q: Color, i: int)
    requires
        0 <= i < s.len(),
        forall|j: int| 0 <= j < s.len() ==> dist2(s[i], q) <= dist2(#[trigger] s[j], q),
    ensures
        nearest_idx(s, q) <= i,
        dist2(s[nearest_idx(s, q)], q) == dist2(s[i], q),
{
    lemma_nearest_idx_properties(s, q);
}

/// Idempotence: a color already in the palette is its own unique closest
/// match (it is at distance zero from itself, and only from itself), so
/// looking it up returns it, and looking up the result returns it again.
pub proof fn lemma_nearest_idempotent(s: Seq<Color>, c: Color)
    requires
        s.contains(c),
    ensures
        nearest_spec(s, c) == c,
        nearest_spec(s, nearest_spec(s, c)) == c,
{
    let w = choose|w: int| 0 <= w < s.len() && s[w] == c;
    lemma_dist2_zero(c, c);
    lemma_nearest_idx_properties(s, c);
    let n = nearest_idx(s, c);
    assert(dist2(s[n], c) <= dist2(s[w], c));
    lemma_dist2_zero(s[n], c);
}

/// A palette of a single color answers every query with that color.
pub proof fn lemma_singleton_nearest(s: Seq<Color>, q: Color)
    requires
        s.len() == 1,
    ensures
        nearest_spec(s, q) == s[0],
{
}

impl ColorMapping {
    /// Builds a palette from an explicit list of colors, keeping their order.
    pub fn new(colors: Vec<Color>) -> (m: ColorMapping)
        ensures
            m@ == colors@,
    {
        ColorMapping { colors }
    }

    /// Appends one color at the end of the palette. Subsequent lookups see
    /// it, but on exact ties every earlier member still wins.
    pub fn push(&mut self, color: Color)
        ensures
            final(self)@ == old(self)@.push(color),
    {
        self.colors.push(color);
    }

    /// The number of colors in the palette.
    pub fn len(&self) -> (n: usize)
        ensures
            n == self@.len(),
    {
        self.colors.len()
    }

    /// Nearest-color lookup: scans the palette in insertion order and
    /// returns the first color at the strictly smallest squared Euclidean
    /// distance to the query. Querying an empty palette is a caller error,
    /// ruled out by precondition.
    pub fn get_color(&self, color: Color) -> (r: Color)
        requires
            self@.len() > 0,
        ensures
            r == nearest_spec(self@, color),
    {
        let ghost s = self@;
        let mut closest_color: Color = self.colors[0];
        let mut closest_distance: u32 = distance_sq(&closest_color, &color);
        let mut i: usize = 1;
        proof {
            assert(s.subrange(0, 1).len() == 1);
            assert(s.subrange(0, 1)[0] == s[0]);
        }
        while i < self.colors.len()
            invariant
                1 <= i <= s.len(),
                self@ == s,
                s.len() > 0,
                closest_color == s[nearest_idx(s.subrange(0, i as int), color)],
                closest_distance == dist2(closest_color, color),
            decreases s.len() - i,
        {
            let c = self.colors[i];
            let d = distance_sq(&c, &color);
            proof {
                let pre = s.subrange(0, i as int);
                let cur = s.subrange(0, i as int + 1);
                assert(cur.drop_last() =~= pre);
                assert(cur.last() == s[i as int]);
                lemma_nearest_idx_properties(pre, color);
            }
            if d < closest_distance {
                closest_color = c;
                closest_distance = d;
            }
            i = i + 1;
        }
        proof {
            assert(s.subrange(0, s.len() as int) =~= s);
        }
        closest_color
    }

    /// Builds a palette from reference color records by decoding each
    /// record's hex color string, in order. Fails, touching nothing, as
    /// soon as one record's hex string is malformed.
    pub fn from_threads(color_threads: Vec<ColorThread>) -> (r: Result<ColorMapping, PaletteError>)
        ensures
            r matches Ok(m) ==> {
                &&& forall|i: int|
                    0 <= i < color_threads@.len() ==> valid_hex_color(
                        (#[trigger] color_threads@[i])@.hex,
                    )
                &&& m@.len() == color_threads@.len()
                &&& forall|i: int|
                    0 <= i < color_threads@.len() ==> m@[i] == spec_hex_color(
                        (#[trigger] color_threads@[i])@.hex,
                    )
            },
            r is Err ==> {
                &&& exists|i: int|
                    0 <= i < color_threads@.len() && !valid_hex_color(
                        (#[trigger] color_threads@[i])@.hex,
                    )
                &&& r == Err::<ColorMapping, PaletteError>(PaletteError::MalformedHexColor)
            },
    {
        let mut colors: Vec<Color> = Vec::new();
        let mut i: usize = 0;
        while i < color_threads.len()
            invariant
                0 <= i <= color_threads@.len(),
                colors@.len() == i,
                forall|j: int|
                    0 <= j < i ==> valid_hex_color((#[trigger] color_threads@[j])@.hex),
                forall|j: int|
                    0 <= j < i ==> colors@[j] == spec_hex_color((#[trigger] color_threads@[j])@.hex),
            decreases color_threads@.len() - i,
        {
            match decode_hex_color(color_threads[i].get_hex().as_str()) {
                Some(c) => {
                    colors.push(c);
                },
                None => {
                    return Err(PaletteError::MalformedHexColor);
                },
            }
            i = i + 1;
        }
        Ok(ColorMapping::new(colors))
    }
}

/// The position in a generated palette of the color for channel steps
/// `(a, b, c)` at depth `d`: the steps are enumerated with the red step
/// outermost and the blue step innermost.
pub open spec fn cube_index(d: int, a: int, b: int, c: int) -> int {
    (a * (d + 1) + b) * (d + 1) + c
}

/// One channel of a generated color: step `v` out of `d` equal steps from
/// 0 up to 255.
pub open spec fn depth_channel(d: int, v: int) -> int
    recommends
        1 <= d,
        0 <= v <= d,
{
    v * 255 / d
}

/// The generated color for channel steps `(a, b, c)` at depth `d`: fully
/// opaque, each color channel scaled to its step.
pub open spec fn gen_color(d: int, a: int, b: int, c: int) -> Color {
    Color {
        r: depth_channel(d, a) as u8,
        g: depth_channel(d, b) as u8,
        b: depth_channel(d, c) as u8,
        a: 255,
    }
}

/// Positions of generated colors grow strictly along the enumeration
/// order of their channel steps.
proof fn lemma_cube_index_mono(d: int, a: int, b: int, c: int, a2: int, b2: int, c2: int)
    requires
        1 <= d,
        0 <= a,
        0 <= b <= d,
        0 <= c <= d,
        0 <= b2 <= d,
        0 <= c2 <= d,
        a < a2 || (a == a2 && b < b2) || (a == a2 && b == b2 && c < c2),
    ensures
        cube_index(d, a, b, c) < cube_index(d, a2, b2, c2),
{
    if a < a2 {
        assert((a * (d + 1) + b) * (d + 1) + c < (a2 * (d + 1) + b2) * (d + 1) + c2)
            by (nonlinear_arith)
            requires
                1 <= d,
                0 <= a,
                a < a2,
                0 <= b <= d,
                0 <= c <= d,
                0 <= b2,
                0 <= c2,
        ;
    } else if a == a2 && b < b2 {
        assert((a * (d + 1) + b) * (d + 1) + c < (a * (d + 1) + b2) * (d + 1) + c2)
            by (nonlinear_arith)
            requires
                1 <= d,
                b < b2,
                0 <= c <= d,
                0 <= c2,
        ;
    }
}

/// One channel of a generated color, computed without overflow.
fn depth_channel_exec(d: u16, v: u32) -> (r: u8)
    requires
        1 <= d,
        v <= d,
    ensures
        r == depth_channel(d as int, v as int),
{
    proof {
        assert(v * 255 <= d * 255) by (nonlinear_arith)
            requires
                v <= d,
        ;
        vstd::arithmetic::div_mod::lemma_div_is_ordered(
            v as int * 255,
            d as int * 255,
            d as int,
        );
        vstd::arithmetic::div_mod::lemma_div_by_multiple(255, d as int);
        assert(d as int * 255 == 255 * (d as int));
        assert(v as int * 255 / (d as int) <= 255);
    }
    let x: u32 = v * 255 / (d as u32);
    x as u8
}

/// Generates a palette that samples the color cube uniformly: for each of
/// the three color channels, `color_depth + 1` equally spaced steps from 0
/// up to 255, every combination present, fully opaque, enumerated with the
/// red step outermost and the blue step innermost.
pub fn generate_color_mapping(color_depth: u16) -> (r: ColorMapping)
    requires
        1 <= color_depth,
    ensures
        r@.len() == (color_depth + 1) * (color_depth + 1) * (color_depth + 1),
        forall|a: int, b: int, c: int|
            0 <= a <= color_depth && 0 <= b <= color_depth && 0 <= c <= color_depth ==> r@[
                #[trigger] cube_index(color_depth as int, a, b, c)
            ] == gen_color(color_depth as int, a, b, c),
{
    let ghost d = color_depth as int;
    let lim: u32 = color_depth as u32 + 1;
    let mut color_map: ColorMapping = ColorMapping::new(Vec::new());
    let mut ri: u32 = 0;
    while ri < lim
        invariant
            1 <= d,
            d == color_depth as int,
            lim == d + 1,
            0 <= ri <= lim,
            color_map@.len() == cube_index(d, ri as int, 0, 0),
            forall|a: int, b: int, c: int|
                0 <= a < ri && 0 <= b <= d && 0 <= c <= d ==> color_map@[
                    #[trigger] cube_index(d, a, b, c)
                ] == gen_color(d, a, b, c),
        decreases lim - ri,
    {
        let mut gi: u32 = 0;
        while gi < lim
            invariant
                1 <= d,
                d == color_depth as int,
                lim == d + 1,
                0 <= ri < lim,
                0 <= gi <= lim,
                color_map@.len() == cube_index(d, ri as int, gi as int, 0),
                forall|a: int, b: int, c: int|
                    0 <= a < ri && 0 <= b <= d && 0 <= c <= d ==> color_map@[
                        #[trigger] cube_index(d, a, b, c)
                    ] == gen_color(d, a, b, c),
                forall|b: int, c: int|
                    0 <= b < gi && 0 <= c <= d ==> color_map@[
                        #[trigger] cube_index(d, ri as int, b, c)
                    ] == gen_color(d, ri as int, b, c),
            decreases lim - gi,
        {
            let mut bi: u32 = 0;
            while bi < lim
                invariant
                    1 <= d,
                    d == color_depth as int,
                    lim == d + 1,
                    0 <= ri < lim,
                    0 <= gi < lim,
                    0 <= bi <= lim,
                    color_map@.len() == cube_index(d, ri as int, gi as int, bi as int),
                    forall|a: int, b: int, c: int|
                        0 <= a < ri && 0 <= b <= d && 0 <= c <= d ==> color_map@[
                            #[trigger] cube_index(d, a, b, c)
                        ] == gen_color(d, a, b, c),
                    forall|b: int, c: int|
                        0 <= b < gi && 0 <= c <= d ==> color_map@[
                            #[trigger] cube_index(d, ri as int, b, c)
                        ] == gen_color(d, ri as int, b, c),
                    forall|c: int|
                        0 <= c < bi ==> color_map@[#[trigger] cube_index(d, ri as int, gi as int, c)]
                            == gen_color(d, ri as int, gi as int, c),
                decreases lim - bi,
            {
                let next = Color {
                    r: depth_channel_exec(color_depth, ri),
                    g: depth_channel_exec(color_depth, gi),
                    b: depth_channel_exec(color_depth, bi),
                    a: 255,
                };
                proof {
                    assert forall|a: int, b: int, c: int|
                        0 <= a <= ri && 0 <= b <= d && 0 <= c <= d && (a < ri || b < gi || (b
                            == gi && c < bi)) implies cube_index(d, a, b, c) < cube_index(
                        d,
                        ri as int,
                        gi as int,
                        bi as int,
                    ) by {
                        lemma_cube_index_mono(d, a, b, c, ri as int, gi as int, bi as int);
                    }
                }
                color_map.push(next);
                bi = bi + 1;
                proof {
                    assert(cube_index(d, ri as int, gi as int, bi - 1) + 1 == cube_index(
                        d,
                        ri as int,
                        gi as int,
                        bi as int,
                    ));
                }
            }
            gi = gi + 1;
            proof {
                assert((ri * (d + 1) + (gi - 1)) * (d + 1) + (d + 1) == (ri * (d + 1) + gi) * (d
                    + 1)) by (nonlinear_arith);
                assert(cube_index(d, ri as int, gi - 1, d + 1) == cube_index(d, ri as int, gi as int, 0));
            }
        }
        ri = ri + 1;
        proof {
            assert(((ri - 1) * (d + 1) + (d + 1)) * (d + 1) == ((ri) * (d + 1)) * (d + 1))
                by (nonlinear_arith);
            assert(cube_index(d, ri - 1, d + 1, 0) == cube_index(d, ri as int, 0, 0));
        }
    }
    proof {
        assert(cube_index(d, d + 1, 0, 0) == ((d + 1) * (d + 1)) * (d + 1)) by (nonlinear_arith);
    }
    color_map
}

} // verus!
