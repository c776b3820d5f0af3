//! Measuring how tall the glyphs are that the font really paints.
//!
//! Every probe glyph is painted on a small scratch canvas; the height of a
//! cell is that of the tallest glyph, in rows of pixels.

use vstd::prelude::*;

verus! {

/// Width and height of the scratch canvas in pixels.
pub const SCRATCH_SIZE: usize = 64;

/// Bytes of the scratch canvas' pixels, four for each.
pub const SCRATCH_BYTES: usize = 16384;

/// The first column that is searched for ink.
pub const INK_LEFT: usize = 8;

/// The column behind the last one that is searched for ink.
pub const INK_RIGHT: usize = 24;

/// Whether the pixel at (`x`, `y`) is not fully transparent.
pub open spec fn has_ink(pixels: Seq<u8>, x: int, y: int) -> bool {
    pixels[(y * SCRATCH_SIZE + x) * 4 + 3] > 0
}

/// Whether row `y` shows any ink of the glyph.
pub open spec fn row_has_ink(pixels: Seq<u8>, y: int) -> bool {
    exists|x: int| INK_LEFT <= x < INK_RIGHT && #[trigger] has_ink(pixels, x, y)
}

/// Whether `height` is the distance from the first to the last row with ink,
/// both included, or 0 without any ink.
pub open spec fn is_ink_height(pixels: Seq<u8>, height: int) -> bool {
    if exists|y: int| 0 <= y < SCRATCH_SIZE && #[trigger] row_has_ink(pixels, y) {
        exists|top: int, bottom: int|
            #![trigger row_has_ink(pixels, top), row_has_ink(pixels, bottom)]
            0 <= top <= bottom < SCRATCH_SIZE && row_has_ink(pixels, top) && row_has_ink(
                pixels,
                bottom,
            ) && height == bottom - top + 1 && forall|y: int|
                0 <= y < SCRATCH_SIZE && #[trigger] row_has_ink(pixels, y) ==> top <= y <= bottom
    } else {
        height == 0
    }
}

/// Whether row `y` shows any ink of the glyph.
fn scan_row(pixels: &[u8], y: usize) -> (ink: bool)
    requires
        pixels@.len() >= SCRATCH_BYTES,
        y < SCRATCH_SIZE,
    ensures
        ink == row_has_ink(pixels@, y as int),
{
    let mut x: usize = INK_LEFT;
    while x < INK_RIGHT
        invariant
            INK_LEFT <= x <= INK_RIGHT,
            pixels@.len() >= SCRATCH_BYTES,
            y < SCRATCH_SIZE,
            forall|k: int| INK_LEFT <= k < x ==> !#[trigger] has_ink(pixels@, k, y as int),
        decreases INK_RIGHT - x,
    {
        if pixels[(y * SCRATCH_SIZE + x) * 4 + 3] > 0 {
            assert(has_ink(pixels@, x as int, y as int));
            return true;
        }
        x += 1;
    }
    false
}

/// The height of the ink on a scratch canvas.
pub fn ink_height(pixels: &[u8]) -> (height: usize)
    requires
        pixels@.len() >= SCRATCH_BYTES,
    ensures
        is_ink_height(pixels@, height as int),
        height <= SCRATCH_SIZE,
{
    let mut any: bool = false;
    let mut top: usize = 0;
    let mut bottom: usize = 0;
    let mut y: usize = 0;
    while y < SCRATCH_SIZE
        invariant
            y <= SCRATCH_SIZE,
            pixels@.len() >= SCRATCH_BYTES,
            !any ==> forall|k: int| 0 <= k < y ==> !#[trigger] row_has_ink(pixels@, k),
            any ==> top <= bottom < y && row_has_ink(pixels@, top as int) && row_has_ink(
                pixels@,
                bottom as int,
            ),
            any ==> forall|k: int|
                0 <= k < y && #[trigger] row_has_ink(pixels@, k) ==> top <= k <= bottom,
        decreases SCRATCH_SIZE - y,
    {
        if scan_row(pixels, y) {
            if !any {
                any = true;
                top = y;
            }
            bottom = y;
        }
        y += 1;
    }
    if any {
        bottom - top + 1
    } else {
        0
    }
}

/// The largest of the heights.
pub open spec fn tallest(heights: Seq<int>) -> int
    decreases heights.len(),
{
    if heights.len() == 0 {
        0
    } else {
        let rest = tallest(heights.drop_last());
        if heights.last() > rest {
            heights.last()
        } else {
            rest
        }
    }
}

/// Whether all pixels of every scratch canvas could be read back.
pub open spec fn all_complete(readbacks: Seq<Vec<u8>>) -> bool {
    forall|i: int| 0 <= i < readbacks.len() ==> (#[trigger] readbacks[i])@.len() >= SCRATCH_BYTES
}

/// The height of the tallest of the painted glyphs, given the pixels of their
/// scratch canvases; `None` when some of them could not be read back.
pub fn rasterized_glyph_height_max(readbacks: &Vec<Vec<u8>>) -> (height: Option<usize>)
    ensures
        height is None <==> !all_complete(readbacks@),
        height matches Some(h) ==> exists|heights: Seq<int>|
            heights.len() == readbacks@.len() && h == #[trigger] tallest(heights) && forall|i: int|
                0 <= i < heights.len() ==> is_ink_height(readbacks@[i]@, #[trigger] heights[i]),
{
    let mut max: usize = 0;
    let ghost mut heights: Seq<int> = Seq::empty();
    let mut i: usize = 0;
    while i < readbacks.len()
        invariant
            i <= readbacks@.len(),
            heights.len() == i,
            max == tallest(heights),
            forall|k: int|
                0 <= k < i ==> (#[trigger] readbacks@[k])@.len() >= SCRATCH_BYTES,
            forall|k: int|
                0 <= k < i ==> is_ink_height(readbacks@[k]@, #[trigger] heights[k]),
        decreases readbacks.len() - i,
    {
        if readbacks[i].len() < SCRATCH_BYTES {
            assert(readbacks@[i as int]@.len() < SCRATCH_BYTES);
            return None;
        }
        let height: usize = ink_height(readbacks[i].as_slice());
        let ghost before = heights;
        proof {
            heights = heights.push(height as int);
            assert(heights.drop_last() =~= before);
        }
        if height > max {
            max = height;
        }
        i += 1;
    }
    Some(max)
}

/// No measured glyph is taller than the cell.
pub proof fn lemma_no_glyph_is_taller(heights: Seq<int>, i: int)
    requires
        0 <= i < heights.len(),
    ensures
        heights[i] <= tallest(heights),
    decreases heights.len(),
{
    if i < heights.len() - 1 {
        lemma_no_glyph_is_taller(heights.drop_last(), i);
    }
}

/// The height of the ink is determined by the pixels.
pub proof fn lemma_ink_height_is_unique(pixels: Seq<u8>, a: int, b: int)
    requires
        is_ink_height(pixels, a),
        is_ink_height(pixels, b),
    ensures
        a == b,
{
}

/// Ink counts where the probe glyph is painted: in the 16 columns from the
/// eighth on of a canvas that is 64 pixels wide, whatever its color is.
pub proof fn lemma_ink_is_looked_for_in_the_glyph(pixels: Seq<u8>, y: int)
    ensures
        row_has_ink(pixels, y) <==> exists|x: int|
            8 <= x < 8 + 16 && #[trigger] pixels[y * 256 + x * 4 + 3] > 0,
{
    if row_has_ink(pixels, y) {
        let x = choose|x: int| INK_LEFT <= x < INK_RIGHT && #[trigger] has_ink(pixels, x, y);
        assert(pixels[y * 256 + x * 4 + 3] > 0);
    }
    if exists|x: int| 8 <= x < 8 + 16 && #[trigger] pixels[y * 256 + x * 4 + 3] > 0 {
        let x = choose|x: int| 8 <= x < 8 + 16 && #[trigger] pixels[y * 256 + x * 4 + 3] > 0;
        assert(has_ink(pixels, x, y));
    }
}

/// The height of a glyph takes in every row with ink: rows with ink lie less
/// than the height apart, and no smaller height will do.
pub proof fn lemma_ink_height_spans_all_ink(pixels: Seq<u8>, height: int, y: int, z: int)
    requires
        is_ink_height(pixels, height),
        0 <= y <= z < 64,
        row_has_ink(pixels, y),
        row_has_ink(pixels, z),
    ensures
        z - y < height <= 64,
        exists|top: int, bottom: int|
            #![trigger row_has_ink(pixels, top), row_has_ink(pixels, bottom)]
            0 <= top <= y && z <= bottom < 64 && bottom - top + 1 == height && row_has_ink(pixels, top)
                && row_has_ink(pixels, bottom),
{
}

/// A glyph without ink has no height.
pub proof fn lemma_no_ink_no_height(pixels: Seq<u8>, height: int)
    requires
        is_ink_height(pixels, height),
    ensures
        height == 0 <==> forall|y: int| 0 <= y < 64 ==> !#[trigger] row_has_ink(pixels, y),
{
}

/// The height of a cell is that of one of its glyphs, or 0 where none has any.
pub proof fn lemma_the_tallest_is_one_of_them(heights: Seq<int>)
    ensures
        tallest(heights) >= 0,
        tallest(heights) > 0 ==> heights.contains(tallest(heights)),
    decreases heights.len(),
{
    if heights.len() > 0 {
        lemma_the_tallest_is_one_of_them(heights.drop_last());
        if heights.last() > tallest(heights.drop_last()) {
            assert(heights[heights.len() - 1] == tallest(heights));
        } else if tallest(heights) > 0 {
            let less = heights.drop_last();
            let k = choose|k: int| 0 <= k < less.len() && less[k] == tallest(heights);
            assert(heights[k] == tallest(heights));
        }
    }
}

/// Glyphs are measured only when all pixels of every canvas, 64 by 64 of four
/// bytes, could be read back.
pub proof fn lemma_incomplete_canvases_are_not_measured(readbacks: Seq<Vec<u8>>)
    ensures
        all_complete(readbacks) <==> forall|i: int|
            0 <= i < readbacks.len() ==> (#[trigger] readbacks[i])@.len() >= 64 * 64 * 4,
{
}

} // verus!
