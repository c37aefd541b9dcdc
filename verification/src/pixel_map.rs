//! The pixel mapper: applies nearest-color lookup to every pixel of a
//! flat, index-addressed pixel grid, in parallel. Workers may finish in
//! any order; each work item carries its origin index, and a single
//! reassembly step writes every result back at exactly that index, so the
//! output order matches the input order whatever the completion order was.

use vstd::prelude::*;

use rayon::iter::ParallelBridge;
use rayon::iter::ParallelIterator;

use crate::color::Color;
use crate::color_mapping::{nearest_spec, ColorMapping};

verus! {

/// Why a mapping pass was refused.
#[derive(Clone, Copy, PartialEq, Eq, Structural, Debug)]
pub enum MapError {
    /// The palette holds no colors; lookups would be meaningless, so the
    /// pass is rejected before any pixel is touched.
    EmptyPalette,
}

/// Whether some work item in `pairs` carries the target index `i`.
pub open spec fn covers_index(pairs: Seq<(usize, Color)>, i: int) -> bool {
    exists|j: int| 0 <= j < pairs.len() && (#[trigger] pairs[j]).0 == i
}

/// Relies on rayon's `par_bridge`, `map` and `collect` for `Vec`: every
/// item of the bridged iterator is pulled exactly once and handed to one
/// worker, the mapping closure is applied to each item exactly once, and
/// `collect` gathers every mapped item, in an order that is not
/// guaranteed. Here the items are the input pixels numbered in input
/// order, and the closure is one call of the verified nearest-color
/// lookup, so the collected pairs are, in some arbitrary order, exactly
/// the pairs of an input index and the lookup's answer for the pixel at
/// that index.
#[verifier::external_body]
fn par_map_nearest(palette: &ColorMapping, pixels: &Vec<Color>) -> (pairs: Vec<(usize, Color)>)
    requires
        palette@.len() > 0,
    ensures
        pairs@.len() == pixels@.len(),
        forall|j: int| 0 <= j < pairs@.len() ==> (#[trigger] pairs@[j]).0 < pixels@.len(),
        forall|j: int|
            0 <= j < pairs@.len() ==> (#[trigger] pairs@[j]).1 == nearest_spec(
                palette@,
                pixels@[pairs@[j].0 as int],
            ),
        forall|j1: int, j2: int|
            0 <= j1 < j2 < pairs@.len() ==> (#[trigger] pairs@[j1]).0 != (#[trigger] pairs@[j2]).0,
        forall|i: int| 0 <= i < pixels@.len() ==> #[trigger] covers_index(pairs@, i),
{
    pixels.iter().copied().enumerate().par_bridge().map(
        |item: (usize, Color)| (item.0, palette.get_color(item.1)),
    ).collect()
}

/// Writes each collected work item's color at the item's own target index
/// in a fresh buffer of `n` slots, whatever order the items stand in.
fn reassemble(n: usize, pairs: &Vec<(usize, Color)>) -> (out: Vec<Color>)
    requires
        forall|j: int| 0 <= j < pairs@.len() ==> (#[trigger] pairs@[j]).0 < n,
        forall|j1: int, j2: int|
            0 <= j1 < pairs@.len() && 0 <= j2 < pairs@.len() && (#[trigger] pairs@[j1]).0 == (
            #[trigger] pairs@[j2]).0 ==> pairs@[j1].1 == pairs@[j2].1,
    ensures
        out@.len() == n,
        forall|j: int|
            0 <= j < pairs@.len() ==> out@[(#[trigger] pairs@[j]).0 as int] == pairs@[j].1,
{
    let mut out: Vec<Color> = Vec::new();
    let mut i: usize = 0;
    while i < n
        invariant
            i <= n,
            out@.len() == i,
        decreases n - i,
    {
        out.push(Color { r: 0, g: 0, b: 0, a: 0 });
        i = i + 1;
    }
    let mut k: usize = 0;
    while k < pairs.len()
        invariant
            k <= pairs@.len(),
            out@.len() == n,
            forall|j: int| 0 <= j < pairs@.len() ==> (#[trigger] pairs@[j]).0 < n,
            forall|j1: int, j2: int|
                0 <= j1 < pairs@.len() && 0 <= j2 < pairs@.len() && (#[trigger] pairs@[j1]).0 == (
                #[trigger] pairs@[j2]).0 ==> pairs@[j1].1 == pairs@[j2].1,
            forall|j: int|
                0 <= j < k ==> out@[(#[trigger] pairs@[j]).0 as int] == pairs@[j].1,
        decreases pairs@.len() - k,
    {
        let (idx, c) = pairs[k];
        out[idx] = c;
        k = k + 1;
    }
    out
}

/// Maps a pixel grid through a palette: output slot `i` holds the
/// palette's nearest color to input pixel `i`, for every `i`, and the
/// output has exactly as many pixels as the input. An empty palette is
/// rejected before any lookup; an empty grid gives an empty output. The
/// lookups run in parallel, and the answer does not depend on the order
/// in which they finish.
pub fn map_pixels(palette: &ColorMapping, pixels: &Vec<Color>) -> (r: Result<Vec<Color>, MapError>)
    ensures
        r is Ok <==> palette@.len() > 0,
        r matches Ok(out) ==> {
            &&& out@.len() == pixels@.len()
            &&& forall|i: int|
                0 <= i < pixels@.len() ==> out@[i] == nearest_spec(palette@, #[trigger] pixels@[i])
        },
        r is Err ==> r == Err::<Vec<Color>, MapError>(MapError::EmptyPalette),
{
    if palette.len() == 0 {
        return Err(MapError::EmptyPalette);
    }
    let pairs = par_map_nearest(palette, pixels);
    let out = reassemble(pixels.len(), &pairs);
    proof {
        assert forall|i: int|
            0 <= i < pixels@.len() implies out@[i] == nearest_spec(
            palette@,
            #[trigger] pixels@[i],
        ) by {
            assert(covers_index(pairs@, i));
            let j = choose|j: int| 0 <= j < pairs@.len() && (#[trigger] pairs@[j]).0 == i;
            assert(out@[pairs@[j].0 as int] == pairs@[j].1);
        }
    }
    Ok(out)
}

/// Completeness of a mapping pass: when the work items carry pairwise
/// distinct target indices and some item carries index `i`, then exactly
/// one item carries `i` — so during reassembly the slot at `i` is written
/// exactly once, neither dropped nor written twice.
pub proof fn lemma_index_written_exactly_once(pairs: Seq<(usize, Color)>, i: int)
    requires
        forall|j1: int, j2: int|
            0 <= j1 < j2 < pairs.len() ==> (#[trigger] pairs[j1]).0 != (#[trigger] pairs[j2]).0,
        covers_index(pairs, i),
    ensures
        exists|j: int|
            {
                &&& 0 <= j < pairs.len()
                &&& (#[trigger] pairs[j]).0 == i
                &&& forall|k: int|
                    0 <= k < pairs.len() && k != j ==> (#[trigger] pairs[k]).0 != i
            },
{
    let j = choose|j: int| 0 <= j < pairs.len() && (#[trigger] pairs[j]).0 == i;
    assert forall|k: int| 0 <= k < pairs.len() && k != j implies (#[trigger] pairs[k]).0 != i by {
        if k < j {
            assert(pairs[k].0 != pairs[j].0);
        } else {
            assert(pairs[j].0 != pairs[k].0);
        }
    }
    assert({
        &&& 0 <= j < pairs.len()
        &&& pairs[j].0 == i
        &&& forall|k: int| 0 <= k < pairs.len() && k != j ==> (#[trigger] pairs[k]).0 != i
    });
}

} // verus!
