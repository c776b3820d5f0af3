//! The glyph atlas: a bitmap with one slot for every character that the
//! WebGL2 renderer can draw.
//!
//! The slots stand in a grid of 32 columns with two texels between them. The
//! font pass paints the glyphs on a canvas of twice the pitch and copies
//! their alpha into the slots; braille is drawn as dots over it; the last
//! texel is opaque, as a sample for flat color fills.

use vstd::arithmetic::div_mod::{
    lemma_fundamental_div_mod, lemma_fundamental_div_mod_converse, lemma_mod_bound,
};
use vstd::prelude::*;

verus! {

/// Texels between two slots.
pub const ATLAS_PADDING: u32 = 2;

/// Slots in a row of the atlas.
pub const ATLAS_COLS: u32 = 32;

/// Rows of slots in the atlas.
pub const ATLAS_ROWS: u32 = 50;

/// Slots in the atlas.
pub const ATLAS_SLOTS: u32 = 1584;

/// The first slot of the braille patterns.
pub const BRAILLE_SLOT: u32 = 816;

/// The first braille pattern.
pub const BRAILLE_START: u32 = 0x2800;

/// The number of braille patterns.
pub const BRAILLE_LEN: u32 = 256;

/// A range of code points and the slot of its first one.
#[derive(Clone, Copy, PartialEq, Eq, Structural, Debug)]
pub struct AtlasRange {
    pub start: u32,
    pub len: u32,
    pub offset: u32,
}

/// The code points that have a slot, by slot.
pub open spec fn atlas_ranges() -> Seq<AtlasRange> {
    seq![
        AtlasRange { start: 0x0000, len: 128, offset: 0 },
        AtlasRange { start: 0x2190, len: 112, offset: 128 },
        AtlasRange { start: 0x2200, len: 256, offset: 240 },
        AtlasRange { start: 0x2580, len: 128, offset: 496 },
        AtlasRange { start: 0x2700, len: 192, offset: 624 },
        AtlasRange { start: 0x2800, len: 256, offset: 816 },
        AtlasRange { start: 0x00A0, len: 96, offset: 1072 },
        AtlasRange { start: 0x2000, len: 112, offset: 1168 },
        AtlasRange { start: 0x20A0, len: 48, offset: 1280 },
        AtlasRange { start: 0x2600, len: 256, offset: 1328 },
    ]
}

/// The code points that have a slot, by slot.
fn ranges() -> (ranges: [AtlasRange; 10])
    ensures
        ranges@ == atlas_ranges(),
{
    let ranges: [AtlasRange; 10] = [
        // ASCII
        AtlasRange { start: 0x0000, len: 128, offset: 0 },
        // Arrows
        AtlasRange { start: 0x2190, len: 112, offset: 128 },
        // Mathematical operators
        AtlasRange { start: 0x2200, len: 256, offset: 240 },
        // Block elements and geometric shapes
        AtlasRange { start: 0x2580, len: 128, offset: 496 },
        // Dingbats
        AtlasRange { start: 0x2700, len: 192, offset: 624 },
        // Braille
        AtlasRange { start: 0x2800, len: 256, offset: 816 },
        // Latin-1 supplement
        AtlasRange { start: 0x00A0, len: 96, offset: 1072 },
        // General punctuation
        AtlasRange { start: 0x2000, len: 112, offset: 1168 },
        // Currency
        AtlasRange { start: 0x20A0, len: 48, offset: 1280 },
        // Miscellaneous symbols
        AtlasRange { start: 0x2600, len: 256, offset: 1328 },
    ];
    assert(ranges@ =~= atlas_ranges());
    ranges
}

/// The slot of code point `cp` in the ranges from the `k`th on.
pub open spec fn slot_from(k: int, cp: u32) -> Option<int>
    decreases 10 - k,
{
    if 0 <= k < 10 {
        let r = atlas_ranges()[k];
        if r.start <= cp < r.start + r.len {
            Some(r.offset + (cp - r.start))
        } else {
            slot_from(k + 1, cp)
        }
    } else {
        None
    }
}

/// The slot of code point `cp`, if it has one.
pub open spec fn slot_of(cp: u32) -> Option<int> {
    slot_from(0, cp)
}

/// The code point of slot `slot` in the ranges from the `k`th on.
pub open spec fn code_point_from(k: int, slot: int) -> int
    decreases 10 - k,
{
    if 0 <= k < 10 {
        let r = atlas_ranges()[k];
        if r.offset <= slot < r.offset + r.len {
            r.start + (slot - r.offset)
        } else {
            code_point_from(k + 1, slot)
        }
    } else {
        0
    }
}

/// The code point of slot `slot`.
pub open spec fn code_point_of(slot: int) -> int {
    code_point_from(0, slot)
}

/// Every slot belongs to exactly one code point, and the code points with a
/// slot are exactly those of the slots.
pub proof fn lemma_slots_and_code_points_match(slot: int, cp: u32)
    ensures
        slot_of(cp) matches Some(s) ==> 0 <= s < ATLAS_SLOTS && code_point_of(s) == cp,
        0 <= slot < ATLAS_SLOTS ==> 0 <= code_point_of(slot) < 0x2900 && slot_of(
            code_point_of(slot) as u32,
        ) == Some(slot),
{
    reveal_with_fuel(slot_from, 11);
    reveal_with_fuel(code_point_from, 11);
}

/// Different characters never share a slot.
pub proof fn lemma_slots_are_not_shared(a: u32, b: u32)
    requires
        slot_of(a) is Some,
        slot_of(a) == slot_of(b),
    ensures
        a == b,
{
    lemma_slots_and_code_points_match(0, a);
    lemma_slots_and_code_points_match(0, b);
}

/// The slot of a code point, if it has one.
pub fn atlas_slot(cp: u32) -> (slot: Option<u32>)
    ensures
        slot is Some <==> slot_of(cp) is Some,
        slot matches Some(s) ==> s == slot_of(cp)->0 && s < ATLAS_SLOTS,
{
    proof {
        lemma_slots_and_code_points_match(0, cp);
    }
    let ranges: [AtlasRange; 10] = ranges();
    let mut k: usize = 0;
    while k < 10
        invariant
            k <= 10,
            ranges@ == atlas_ranges(),
            slot_of(cp) == slot_from(k as int, cp),
            slot_of(cp) matches Some(s) ==> 0 <= s < ATLAS_SLOTS,
        decreases 10 - k,
    {
        let r: AtlasRange = ranges[k];
        if r.start <= cp && cp - r.start < r.len {
            return Some(r.offset + (cp - r.start));
        }
        k += 1;
    }
    None
}

/// Texel `p` of a bitmap stands in column `x` and row `y` exactly when it is
/// the `x`th texel of the `y`th row.
proof fn lemma_texel(p: int, stride: int, x: int, y: int)
    requires
        0 <= p,
        0 <= x < stride,
        0 <= y,
    ensures
        p == y * stride + x <==> p / stride == y && p % stride == x,
{
    lemma_fundamental_div_mod(p, stride);
    if p == y * stride + x {
        lemma_fundamental_div_mod_converse(p, stride, y, x);
    }
    assert(stride * (p / stride) == (p / stride) * stride) by (nonlinear_arith);
}

/// A texel of one of the first `rows` rows lies inside of a bitmap that has
/// them.
proof fn lemma_texel_inside(stride: int, x: int, y: int, rows: int)
    requires
        0 <= x < stride,
        0 <= y < rows,
    ensures
        0 <= y * stride <= y * stride + x < rows * stride,
{
    assert(0 <= y * stride && y * stride + stride <= rows * stride) by (nonlinear_arith)
        requires
            0 <= y < rows,
            0 < stride,
    ;
}

/// Makes the texels of columns `x0` to `x1` in rows `y0` to `y1` opaque.
fn fill_rect(data: &mut Vec<u8>, stride: u32, x0: u32, x1: u32, y0: u32, y1: u32)
    requires
        x1 < stride,
        y0 <= y1 ==> (y1 + 1) * stride <= old(data)@.len() && (y1 + 1) * stride <= u32::MAX,
    ensures
        final(data)@.len() == old(data)@.len(),
        forall|p: int|
            0 <= p < old(data)@.len() ==> #[trigger] final(data)@[p] == if x0 <= p % (stride as int)
                <= x1 && y0 <= p / (stride as int) <= y1 {
                255u8
            } else {
                old(data)@[p]
            },
{
    let ghost start = data@;
    let ghost w = stride as int;
    let mut py: u64 = y0 as u64;
    while py <= y1 as u64
        invariant
            w == stride,
            x1 < stride,
            y0 <= py,
            y0 <= y1 ==> py <= y1 + 1,
            y0 > y1 ==> py == y0,
            y0 <= y1 ==> (y1 + 1) * stride <= data@.len() && (y1 + 1) * stride <= u32::MAX,
            data@.len() == start.len(),
            forall|p: int|
                0 <= p < start.len() ==> #[trigger] data@[p] == if x0 <= p % w <= x1 && y0 <= p / w
                    < py {
                    255u8
                } else {
                    start[p]
                },
        decreases y1 + 1 - py,
    {
        let mut px: u64 = x0 as u64;
        while px <= x1 as u64
            invariant
                w == stride,
                x1 < stride,
                y0 <= py <= y1,
                x0 <= px,
                x0 <= x1 ==> px <= x1 + 1,
                (y1 + 1) * stride <= data@.len(),
                (y1 + 1) * stride <= u32::MAX,
                data@.len() == start.len(),
                forall|p: int|
                    0 <= p < start.len() ==> #[trigger] data@[p] == if x0 <= p % w <= x1 && y0 <= p
                        / w && (p / w < py || (p / w == py && p % w < px)) {
                        255u8
                    } else {
                        start[p]
                    },
            decreases x1 + 1 - px,
        {
            proof {
                lemma_texel_inside(w, px as int, py as int, y1 + 1);
            }
            let at: usize = (py * stride as u64 + px) as usize;
            data.set(at, 255);
            assert forall|p: int| 0 <= p < start.len() implies #[trigger] data@[p] == (if x0 <= p
                % w <= x1 && y0 <= p / w && (p / w < py || (p / w == py && p % w < px + 1)) {
                255u8
            } else {
                start[p]
            }) by {
                lemma_texel(p, w, px as int, py as int);
            }
            px += 1;
        }
        assert forall|p: int| 0 <= p < start.len() implies #[trigger] data@[p] == (if x0 <= p % w
            <= x1 && y0 <= p / w < py + 1 {
            255u8
        } else {
            start[p]
        }) by {
            lemma_mod_bound(p, w);
        }
        py += 1;
    }
}

/// Where the dots of a braille pattern lie in a slot: the two columns, the
/// four rows and how far a dot reaches from its center.
#[derive(Clone, Copy, Debug)]
pub struct BrailleDots {
    pub xs: [u32; 2],
    pub ys: [u32; 4],
    pub reach: u32,
}

/// The row of dots that dot `dot` stands in. The dots are numbered down the
/// left and the right column of the upper three rows, then along the fourth.
pub open spec fn dot_row(dot: int) -> int {
    if dot < 6 {
        dot % 3
    } else {
        3
    }
}

/// The column of dots that dot `dot` stands in.
pub open spec fn dot_col(dot: int) -> int {
    if dot < 3 || dot == 6 {
        0
    } else {
        1
    }
}

/// Whether the braille pattern `cp` has dot `dot`.
pub open spec fn has_dot(cp: u32, dot: u32) -> bool {
    cp & (1u32 << dot) != 0
}

/// Whether dot `dot` of a braille pattern covers texel (`gx`, `gy`) of its
/// slot.
pub open spec fn dot_covers(dots: BrailleDots, dot: int, gx: int, gy: int) -> bool {
    let cx = dots.xs@[dot_col(dot)] as int;
    let cy = dots.ys@[dot_row(dot)] as int;
    let r = dots.reach as int;
    cx - r <= gx <= cx + r && cy - r <= gy <= cy + r
}

/// Whether one of the first `n` dots of the pattern `cp` covers texel
/// (`gx`, `gy`) of its slot.
pub open spec fn inked_by(cp: u32, dots: BrailleDots, n: int, gx: int, gy: int) -> bool {
    exists|dot: u32| dot < n && #[trigger] has_dot(cp, dot) && dot_covers(dots, dot as int, gx, gy)
}

/// Whether the braille pattern `cp` covers texel (`gx`, `gy`) of its slot.
pub open spec fn inked(cp: u32, dots: BrailleDots, gx: int, gy: int) -> bool {
    inked_by(cp, dots, 8, gx, gy)
}

/// The layout of the atlas for one glyph size.
pub struct GlyphAtlas {
    /// Texels in a row.
    pub atlas_width: u32,
    /// Rows of texels.
    pub atlas_height: u32,
    /// Width of a slot.
    pub glyph_width: u32,
    /// Height of a slot.
    pub glyph_height: u32,
    /// Left, lower, right and upper edge of every slot, in texels.
    pub uv_map: Vec<(u32, u32, u32, u32)>,
}

/// Whether texel `p` of a bitmap lies in the rectangle at (`x`, `y`) of the
/// given size.
pub open spec fn in_rect(p: int, stride: int, x: int, y: int, width: int, height: int) -> bool {
    x <= p % stride < x + width && y <= p / stride < y + height
}

impl GlyphAtlas {
    /// Paints the braille pattern `cp` as dots into the slot at (`x`, `y`) of a
    /// bitmap with `stride` texels in a row.
    pub fn rasterize_braille(
        cp: u32,
        glyph_w: u32,
        glyph_h: u32,
        data: &mut Vec<u8>,
        x: u32,
        y: u32,
        stride: u32,
        dots: &BrailleDots,
    )
        requires
            glyph_w >= 1,
            glyph_h >= 1,
            x + glyph_w <= stride,
            (y + glyph_h) * stride <= old(data)@.len(),
            (y + glyph_h) * stride <= u32::MAX,
            x + dots.xs@[0] + dots.reach <= u32::MAX,
            x + dots.xs@[1] + dots.reach <= u32::MAX,
            y + dots.ys@[0] + dots.reach <= u32::MAX,
            y + dots.ys@[1] + dots.reach <= u32::MAX,
            y + dots.ys@[2] + dots.reach <= u32::MAX,
            y + dots.ys@[3] + dots.reach <= u32::MAX,
        ensures
            final(data)@.len() == old(data)@.len(),
            forall|p: int|
                0 <= p < old(data)@.len() ==> #[trigger] final(data)@[p] == if in_rect(
                    p,
                    stride as int,
                    x as int,
                    y as int,
                    glyph_w as int,
                    glyph_h as int,
                ) && inked(cp, *dots, p % (stride as int) - x, p / (stride as int) - y) {
                    255u8
                } else {
                    old(data)@[p]
                },
    {
        let ghost start = data@;
        let ghost w = stride as int;
        assert(y + glyph_h <= (y + glyph_h) * stride) by (nonlinear_arith)
            requires
                stride >= 1,
        ;
        let mut dot: u32 = 0;
        while dot < 8
            invariant
                dot <= 8,
                w == stride,
                glyph_w >= 1,
                glyph_h >= 1,
                x + glyph_w <= stride,
                (y + glyph_h) * stride <= data@.len(),
                (y + glyph_h) * stride <= u32::MAX,
                y + glyph_h <= u32::MAX,
                data@.len() == start.len(),
                x + dots.xs@[0] + dots.reach <= u32::MAX,
                x + dots.xs@[1] + dots.reach <= u32::MAX,
                y + dots.ys@[0] + dots.reach <= u32::MAX,
                y + dots.ys@[1] + dots.reach <= u32::MAX,
                y + dots.ys@[2] + dots.reach <= u32::MAX,
                y + dots.ys@[3] + dots.reach <= u32::MAX,
                forall|p: int|
                    0 <= p < start.len() ==> #[trigger] data@[p] == if in_rect(
                        p,
                        w,
                        x as int,
                        y as int,
                        glyph_w as int,
                        glyph_h as int,
                    ) && inked_by(cp, *dots, dot as int, p % w - x, p / w - y) {
                        255u8
                    } else {
                        start[p]
                    },
            decreases 8 - dot,
        {
            let ghost before = data@;
            if cp & (1u32 << dot) != 0 {
                let (row, col): (usize, usize) = match dot {
                    0 => (0, 0),
                    1 => (1, 0),
                    2 => (2, 0),
                    3 => (0, 1),
                    4 => (1, 1),
                    5 => (2, 1),
                    6 => (3, 0),
                    _ => (3, 1),
                };
                let dcx: u32 = x + dots.xs[col];
                let dcy: u32 = y + dots.ys[row];
                let r: u32 = dots.reach;
                let x0: u32 = if dcx.saturating_sub(r) > x {
                    dcx - r
                } else {
                    x
                };
                let x1: u32 = if dcx + r < x + (glyph_w - 1) {
                    dcx + r
                } else {
                    x + (glyph_w - 1)
                };
                let y0: u32 = if dcy.saturating_sub(r) > y {
                    dcy - r
                } else {
                    y
                };
                let y1: u32 = if dcy + r < y + (glyph_h - 1) {
                    dcy + r
                } else {
                    y + (glyph_h - 1)
                };
                assert((y1 + 1) * stride <= (y + glyph_h) * stride) by (nonlinear_arith)
                    requires
                        y1 + 1 <= y + glyph_h,
                        stride >= 0,
                ;
                fill_rect(data, stride, x0, x1, y0, y1);
                assert forall|p: int| 0 <= p < start.len() implies #[trigger] data@[p] == (if in_rect(
                    p,
                    w,
                    x as int,
                    y as int,
                    glyph_w as int,
                    glyph_h as int,
                ) && inked_by(cp, *dots, dot + 1, p % w - x, p / w - y) {
                    255u8
                } else {
                    start[p]
                }) by {
                    let gx = p % w - x;
                    let gy = p / w - y;
                    assert(before[p] == (if in_rect(
                        p,
                        w,
                        x as int,
                        y as int,
                        glyph_w as int,
                        glyph_h as int,
                    ) && inked_by(cp, *dots, dot as int, gx, gy) {
                        255u8
                    } else {
                        start[p]
                    }));
                    assert(has_dot(cp, dot));
                    assert(inked_by(cp, *dots, dot + 1, gx, gy) == (inked_by(
                        cp,
                        *dots,
                        dot as int,
                        gx,
                        gy,
                    ) || dot_covers(*dots, dot as int, gx, gy)));
                }
            } else {
                assert forall|p: int| 0 <= p < start.len() implies #[trigger] data@[p] == (if in_rect(
                    p,
                    w,
                    x as int,
                    y as int,
                    glyph_w as int,
                    glyph_h as int,
                ) && inked_by(cp, *dots, dot + 1, p % w - x, p / w - y) {
                    255u8
                } else {
                    start[p]
                }) by {
                    let gx = p % w - x;
                    let gy = p / w - y;
                    assert(!has_dot(cp, dot));
                    assert(inked_by(cp, *dots, dot + 1, gx, gy) == inked_by(
                        cp,
                        *dots,
                        dot as int,
                        gx,
                        gy,
                    ));
                }
            }
            dot += 1;
        }
    }
}

/// Distance between the left edges of two neighbouring slots, or the upper
/// edges of two slots that stand below each other.
pub open spec fn pitch(glyph: u32) -> int {
    glyph + ATLAS_PADDING
}

/// Texels in a row of the atlas.
pub open spec fn atlas_width(glyph_w: u32) -> int {
    ATLAS_COLS * pitch(glyph_w)
}

/// Rows of texels in the atlas.
pub open spec fn atlas_height(glyph_h: u32) -> int {
    ATLAS_ROWS * pitch(glyph_h)
}

/// Left edge of a slot.
pub open spec fn slot_x(slot: int, glyph_w: u32) -> int {
    (slot % (ATLAS_COLS as int)) * pitch(glyph_w)
}

/// Upper edge of a slot.
pub open spec fn slot_y(slot: int, glyph_h: u32) -> int {
    (slot / (ATLAS_COLS as int)) * pitch(glyph_h)
}

/// The slot that texel `p` of the atlas belongs to, with the texel's place in
/// it; none for the padding and the unused end of the last row.
pub open spec fn texel_slot(p: int, glyph_w: u32, glyph_h: u32) -> Option<(int, int, int)> {
    let x = p % atlas_width(glyph_w);
    let y = p / atlas_width(glyph_w);
    let slot = (y / pitch(glyph_h)) * ATLAS_COLS + x / pitch(glyph_w);
    let gx = x % pitch(glyph_w);
    let gy = y % pitch(glyph_h);
    if gx < glyph_w && gy < glyph_h && slot < ATLAS_SLOTS {
        Some((slot, gx, gy))
    } else {
        None
    }
}

/// Whether an atlas for glyphs of this size can be addressed, and likewise
/// the canvas that its glyphs are painted on.
pub open spec fn glyphs_fit(glyph_w: u32, glyph_h: u32) -> bool {
    &&& glyph_w >= 1
    &&& glyph_h >= 1
    &&& atlas_width(glyph_w) * atlas_height(glyph_h) <= u32::MAX
    &&& canvas_bytes(glyph_w, glyph_h) <= u32::MAX
}

/// Width of the canvas that the glyphs are painted on.
pub open spec fn canvas_width(glyph_w: u32) -> int {
    ATLAS_COLS * (2 * glyph_w)
}

/// Height of the canvas that the glyphs are painted on.
pub open spec fn canvas_height(glyph_h: u32) -> int {
    ATLAS_ROWS * (2 * glyph_h)
}

/// Bytes of the canvas' pixels, four for each.
pub open spec fn canvas_bytes(glyph_w: u32, glyph_h: u32) -> int {
    canvas_width(glyph_w) * canvas_height(glyph_h) * 4
}

/// Where the canvas' pixels hold the alpha of texel (`gx`, `gy`) of a slot.
pub open spec fn canvas_alpha_at(slot: int, gx: int, gy: int, glyph_w: u32, glyph_h: u32) -> int {
    (((slot / (ATLAS_COLS as int)) * (2 * glyph_h) + gy) * canvas_width(glyph_w) + (slot % (
    ATLAS_COLS as int)) * (2 * glyph_w) + gx) * 4 + 3
}

/// The texel at `p` after the font pass: the alpha that the canvas has for
/// it, where that is more than nothing.
pub open spec fn after_font_pass(
    before: u8,
    p: int,
    glyph_w: u32,
    glyph_h: u32,
    pixels: Seq<u8>,
) -> u8 {
    match texel_slot(p, glyph_w, glyph_h) {
        Some((slot, gx, gy)) => {
            let alpha = pixels[canvas_alpha_at(slot, gx, gy, glyph_w, glyph_h)];
            if alpha > 0 {
                alpha
            } else {
                before
            }
        },
        None => before,
    }
}

/// The width of the atlas and of the canvas in the range of their type.
proof fn lemma_widths(glyph_w: u32, glyph_h: u32)
    requires
        glyphs_fit(glyph_w, glyph_h),
    ensures
        96 <= atlas_width(glyph_w) <= 0x1b4_e81c,
        150 <= atlas_height(glyph_h) <= 0x2aa_aaab,
        64 <= canvas_width(glyph_w) <= u32::MAX,
        100 <= canvas_height(glyph_h) <= u32::MAX,
        canvas_width(glyph_w) * canvas_height(glyph_h) <= u32::MAX / 4,
{
    let w = atlas_width(glyph_w);
    let h = atlas_height(glyph_h);
    assert(w * 150 <= w * h) by (nonlinear_arith)
        requires
            h >= 150,
            w >= 0,
    ;
    assert(96 * h <= w * h) by (nonlinear_arith)
        requires
            w >= 96,
            h >= 0,
    ;
    let cw = canvas_width(glyph_w);
    let ch = canvas_height(glyph_h);
    assert(cw * 100 <= cw * ch) by (nonlinear_arith)
        requires
            ch >= 100,
            cw >= 0,
    ;
    assert(64 * ch <= cw * ch) by (nonlinear_arith)
        requires
            cw >= 64,
            ch >= 0,
    ;
}

/// The alpha of every texel of a slot is among the canvas' pixels.
proof fn lemma_canvas_alpha_at(slot: int, gx: int, gy: int, glyph_w: u32, glyph_h: u32)
    requires
        glyphs_fit(glyph_w, glyph_h),
        0 <= slot < ATLAS_SLOTS,
        0 <= gx < glyph_w,
        0 <= gy < glyph_h,
    ensures
        0 <= canvas_alpha_at(slot, gx, gy, glyph_w, glyph_h) < canvas_bytes(glyph_w, glyph_h),
        0 <= ((slot / (ATLAS_COLS as int)) * (2 * glyph_h) + gy) * canvas_width(glyph_w)
            <= canvas_bytes(glyph_w, glyph_h),
        0 <= (slot % (ATLAS_COLS as int)) * (2 * glyph_w) <= canvas_width(glyph_w),
        0 <= (slot / (ATLAS_COLS as int)) * (2 * glyph_h) <= canvas_height(glyph_h),
{
    let row = slot / (ATLAS_COLS as int);
    let col = slot % (ATLAS_COLS as int);
    let cw = canvas_width(glyph_w);
    let ch = canvas_height(glyph_h);
    let x = col * (2 * glyph_w) + gx;
    let y = row * (2 * glyph_h) + gy;
    assert(0 <= row < 50 && 0 <= col < 32);
    assert(0 <= col * (2 * glyph_w) && x < cw) by (nonlinear_arith)
        requires
            0 <= col < 32,
            0 <= gx < glyph_w,
            x == col * (2 * glyph_w) + gx,
            cw == 32 * (2 * glyph_w),
    ;
    assert(0 <= row * (2 * glyph_h) && y < ch) by (nonlinear_arith)
        requires
            0 <= row < 50,
            0 <= gy < glyph_h,
            y == row * (2 * glyph_h) + gy,
            ch == 50 * (2 * glyph_h),
    ;
    lemma_texel_inside(cw, x, y, ch);
    assert(cw * ch == ch * cw) by (nonlinear_arith);
}

/// The slot that a texel of the atlas belongs to, with its place in it.
fn locate_texel(p: u32, glyph_w: u32, glyph_h: u32) -> (place: Option<(u32, u32, u32)>)
    requires
        glyphs_fit(glyph_w, glyph_h),
        p < atlas_width(glyph_w) * atlas_height(glyph_h),
    ensures
        place is Some <==> texel_slot(p as int, glyph_w, glyph_h) is Some,
        place matches Some((slot, gx, gy)) ==> texel_slot(p as int, glyph_w, glyph_h) == Some(
            (slot as int, gx as int, gy as int),
        ),
{
    proof {
        lemma_widths(glyph_w, glyph_h);
    }
    let w: u32 = ATLAS_COLS * (glyph_w + ATLAS_PADDING);
    let x: u32 = p % w;
    let y: u32 = p / w;
    let row: u32 = y / (glyph_h + ATLAS_PADDING);
    let col: u32 = x / (glyph_w + ATLAS_PADDING);
    proof {
        let h = atlas_height(glyph_h);
        lemma_fundamental_div_mod(p as int, w as int);
        assert(y < h) by (nonlinear_arith)
            requires
                p == w * y + x,
                p < w * h,
                0 <= x,
                w > 0,
        ;
        lemma_fundamental_div_mod(y as int, pitch(glyph_h));
        assert(row < 50) by (nonlinear_arith)
            requires
                y < 50 * pitch(glyph_h),
                y == pitch(glyph_h) * row + y as int % pitch(glyph_h),
                y as int % pitch(glyph_h) >= 0,
                pitch(glyph_h) > 0,
        ;
        lemma_fundamental_div_mod(x as int, pitch(glyph_w));
        assert(col < 32) by (nonlinear_arith)
            requires
                x < 32 * pitch(glyph_w),
                x == pitch(glyph_w) * col + x as int % pitch(glyph_w),
                x as int % pitch(glyph_w) >= 0,
                pitch(glyph_w) > 0,
        ;
    }
    let slot: u32 = row * ATLAS_COLS + col;
    let gx: u32 = x % (glyph_w + ATLAS_PADDING);
    let gy: u32 = y % (glyph_h + ATLAS_PADDING);
    if gx < glyph_w && gy < glyph_h && slot < ATLAS_SLOTS {
        Some((slot, gx, gy))
    } else {
        None
    }
}

impl GlyphAtlas {
    /// Copies the alpha of the painted glyphs into the slots of the atlas.
    /// Nothing is copied when the pixels are not complete.
    pub fn rasterize_atlas(data: &mut Vec<u8>, glyph_w: u32, glyph_h: u32, pixels: &[u8])
        requires
            glyphs_fit(glyph_w, glyph_h),
            pixels@.len() >= canvas_bytes(glyph_w, glyph_h) ==> old(data)@.len() == atlas_width(glyph_w)
                * atlas_height(glyph_h),
        ensures
            final(data)@.len() == old(data)@.len(),
            pixels@.len() < canvas_bytes(glyph_w, glyph_h) ==> final(data)@ == old(data)@,
            pixels@.len() >= canvas_bytes(glyph_w, glyph_h) ==> forall|p: int|
                0 <= p < old(data)@.len() ==> #[trigger] final(data)@[p] == after_font_pass(
                    old(data)@[p],
                    p,
                    glyph_w,
                    glyph_h,
                    pixels@,
                ),
    {
        proof {
            lemma_widths(glyph_w, glyph_h);
        }
        let cw: u32 = ATLAS_COLS * (2 * glyph_w);
        let ch: u32 = ATLAS_ROWS * (2 * glyph_h);
        let needed: u64 = cw as u64 * ch as u64 * 4;
        if (pixels.len() as u64) < needed {
            return ;
        }
        let ghost start = data@;
        let n: usize = data.len();
        let mut p: usize = 0;
        while p < n
            invariant
                p <= n,
                n == data@.len(),
                n == start.len(),
                n == atlas_width(glyph_w) * atlas_height(glyph_h),
                glyphs_fit(glyph_w, glyph_h),
                cw == canvas_width(glyph_w),
                pixels@.len() >= canvas_bytes(glyph_w, glyph_h),
                forall|q: int|
                    0 <= q < p ==> #[trigger] data@[q] == after_font_pass(
                        start[q],
                        q,
                        glyph_w,
                        glyph_h,
                        pixels@,
                    ),
                forall|q: int| p <= q < n ==> #[trigger] data@[q] == start[q],
            decreases n - p,
        {
            if let Some((slot, gx, gy)) = locate_texel(p as u32, glyph_w, glyph_h) {
                proof {
                    assert(0 <= p as int % atlas_width(glyph_w));
                    lemma_slot_of_texel_is_one(p as int, glyph_w, glyph_h);
                    lemma_widths(glyph_w, glyph_h);
                    lemma_canvas_alpha_at(slot as int, gx as int, gy as int, glyph_w, glyph_h);
                }
                let row: u64 = (slot / ATLAS_COLS) as u64;
                let col: u64 = (slot % ATLAS_COLS) as u64;
                let y: u64 = row * (2 * glyph_h as u64) + gy as u64;
                let at: u64 = (y * cw as u64 + col * (2 * glyph_w as u64) + gx as u64) * 4 + 3;
                let alpha: u8 = pixels[at as usize];
                if alpha > 0 {
                    data.set(p, alpha);
                }
            }
            p += 1;
        }
    }
}

/// A texel that belongs to a slot has its place inside of it.
proof fn lemma_slot_of_texel_is_one(p: int, glyph_w: u32, glyph_h: u32)
    requires
        0 <= p,
        glyph_w >= 1,
        glyph_h >= 1,
    ensures
        texel_slot(p, glyph_w, glyph_h) matches Some((slot, gx, gy)) ==> 0 <= slot < ATLAS_SLOTS
            && 0 <= gx < glyph_w && 0 <= gy < glyph_h,
{
    let w = atlas_width(glyph_w);
    lemma_mod_bound(p, w);
    let x = p % w;
    let y = p / w;
    assert(0 <= y) by (nonlinear_arith)
        requires
            y == p / w,
            0 <= p,
            w > 0,
    ;
    lemma_mod_bound(x, pitch(glyph_w));
    lemma_mod_bound(y, pitch(glyph_h));
    assert(0 <= y / pitch(glyph_h)) by (nonlinear_arith)
        requires
            0 <= y,
            pitch(glyph_h) > 0,
    ;
    assert(0 <= x / pitch(glyph_w)) by (nonlinear_arith)
        requires
            0 <= x,
            pitch(glyph_w) > 0,
    ;
}

/// A place counted in steps of `pitch` lies within `size` of the `n`th step
/// exactly when `n` is its step and its rest is less than `size`.
proof fn lemma_step(at: int, pitch: int, n: int, size: int)
    requires
        0 <= at,
        0 <= n,
        0 < size <= pitch,
    ensures
        n * pitch <= at < n * pitch + size <==> at / pitch == n && at % pitch < size,
        at / pitch == n ==> at % pitch == at - n * pitch,
{
    lemma_fundamental_div_mod(at, pitch);
    assert(pitch * (at / pitch) == (at / pitch) * pitch) by (nonlinear_arith);
    lemma_mod_bound(at, pitch);
    if n * pitch <= at < n * pitch + size {
        lemma_fundamental_div_mod_converse(at, pitch, n, at - n * pitch);
    }
}

/// A texel lies in the rectangle of a slot exactly when it belongs to it.
proof fn lemma_slot_rect(p: int, slot: int, glyph_w: u32, glyph_h: u32)
    requires
        glyphs_fit(glyph_w, glyph_h),
        0 <= p,
        0 <= slot < ATLAS_SLOTS,
    ensures
        ({
            let w = atlas_width(glyph_w);
            let x = slot_x(slot, glyph_w);
            let y = slot_y(slot, glyph_h);
            let inside = in_rect(p, w, x, y, glyph_w as int, glyph_h as int);
            &&& inside ==> texel_slot(p, glyph_w, glyph_h) == Some((slot, p % w - x, p / w - y))
            &&& texel_slot(p, glyph_w, glyph_h) matches Some((s, gx, gy)) ==> (s == slot ==> inside
                && gx == p % w - x && gy == p / w - y)
        }),
{
    let w = atlas_width(glyph_w);
    lemma_mod_bound(p, w);
    let x = p % w;
    let y = p / w;
    assert(0 <= y) by (nonlinear_arith)
        requires
            y == p / w,
            0 <= p,
            w > 0,
    ;
    let row = slot / (ATLAS_COLS as int);
    let col = slot % (ATLAS_COLS as int);
    lemma_step(x, pitch(glyph_w), col, glyph_w as int);
    lemma_step(y, pitch(glyph_h), row, glyph_h as int);
    let xs = x / pitch(glyph_w);
    let ys = y / pitch(glyph_h);
    lemma_fundamental_div_mod(x, pitch(glyph_w));
    lemma_mod_bound(x, pitch(glyph_w));
    assert(0 <= xs < 32) by (nonlinear_arith)
        requires
            0 <= x < 32 * pitch(glyph_w),
            x == pitch(glyph_w) * xs + x % pitch(glyph_w),
            0 <= x % pitch(glyph_w) < pitch(glyph_w),
            pitch(glyph_w) > 0,
    ;
    assert(0 <= ys) by (nonlinear_arith)
        requires
            0 <= y,
            ys == y / pitch(glyph_h),
            pitch(glyph_h) > 0,
    ;
    if ys * 32 + xs == slot {
        lemma_fundamental_div_mod_converse(slot, 32, ys, xs);
    }
}

/// A slot lies inside of the atlas, before its last column and row.
proof fn lemma_slot_inside(slot: int, glyph_w: u32, glyph_h: u32)
    requires
        glyphs_fit(glyph_w, glyph_h),
        0 <= slot < ATLAS_SLOTS,
    ensures
        0 <= slot_x(slot, glyph_w),
        slot_x(slot, glyph_w) + glyph_w < atlas_width(glyph_w),
        0 <= slot_y(slot, glyph_h),
        slot_y(slot, glyph_h) + glyph_h < atlas_height(glyph_h),
{
    let row = slot / (ATLAS_COLS as int);
    let col = slot % (ATLAS_COLS as int);
    assert(0 <= row < 50 && 0 <= col < 32);
    assert(0 <= col * pitch(glyph_w) && col * pitch(glyph_w) + pitch(glyph_w) <= 32 * pitch(glyph_w))
        by (nonlinear_arith)
        requires
            0 <= col < 32,
            pitch(glyph_w) > 0,
    ;
    assert(0 <= row * pitch(glyph_h) && row * pitch(glyph_h) + pitch(glyph_h) <= 50 * pitch(glyph_h))
        by (nonlinear_arith)
        requires
            0 <= row < 50,
            pitch(glyph_h) > 0,
    ;
}

/// Whether the dots have their centers in a slot and reach no further than
/// its width.
pub open spec fn dots_fit(dots: BrailleDots, glyph_w: u32, glyph_h: u32) -> bool {
    &&& dots.xs@[0] <= glyph_w && dots.xs@[1] <= glyph_w
    &&& dots.ys@[0] <= glyph_h && dots.ys@[1] <= glyph_h
    &&& dots.ys@[2] <= glyph_h && dots.ys@[3] <= glyph_h
    &&& dots.reach <= glyph_w
}

impl BrailleDots {
    /// Whether the dots lie in a slot of the given size.
    pub fn fit(&self, glyph_w: u32, glyph_h: u32) -> (fit: bool)
        ensures
            fit == dots_fit(*self, glyph_w, glyph_h),
    {
        self.xs[0] <= glyph_w && self.xs[1] <= glyph_w && self.ys[0] <= glyph_h && self.ys[1]
            <= glyph_h && self.ys[2] <= glyph_h && self.ys[3] <= glyph_h && self.reach <= glyph_w
    }
}

/// Whether texel `p` of the atlas is covered by a dot of one of the first `n`
/// braille patterns.
pub open spec fn braille_ink(p: int, n: int, dots: BrailleDots, glyph_w: u32, glyph_h: u32) -> bool {
    match texel_slot(p, glyph_w, glyph_h) {
        Some((slot, gx, gy)) => BRAILLE_SLOT <= slot < BRAILLE_SLOT + n && inked(
            (BRAILLE_START + (slot - BRAILLE_SLOT)) as u32,
            dots,
            gx,
            gy,
        ),
        None => false,
    }
}

/// The finished atlas at texel `p`: opaque where a braille dot covers it and
/// in the last texel, else the alpha of the painted glyph, if there is any.
pub open spec fn baked(
    p: int,
    glyph_w: u32,
    glyph_h: u32,
    pixels: Seq<u8>,
    dots: BrailleDots,
) -> u8 {
    if p == atlas_width(glyph_w) * atlas_height(glyph_h) - 1 || braille_ink(
        p,
        BRAILLE_LEN as int,
        dots,
        glyph_w,
        glyph_h,
    ) {
        255
    } else if pixels.len() >= canvas_bytes(glyph_w, glyph_h) {
        after_font_pass(0, p, glyph_w, glyph_h, pixels)
    } else {
        0
    }
}

/// The edges of a slot: left, lower, right and upper.
pub open spec fn slot_edges(slot: int, glyph_w: u32, glyph_h: u32) -> (int, int, int, int) {
    let x = slot_x(slot, glyph_w);
    let y = slot_y(slot, glyph_h);
    (x, y + glyph_h, x + glyph_w, y)
}

/// A glyph to paint on the canvas: its code point, and the left and upper
/// edge of its place.
#[derive(Clone, Copy, PartialEq, Eq, Structural, Debug)]
pub struct GlyphDraw {
    pub cp: u32,
    pub x: u32,
    pub y: u32,
}

/// Whether the font pass paints code point `cp`: not the control codes, and
/// not braille, which is drawn as dots.
pub open spec fn is_font_glyph(cp: int) -> bool {
    cp >= 0x20 && cp != 0x7f && !(0x2800 <= cp <= 0x28ff)
}

/// The glyphs to paint for the first `n` slots.
pub open spec fn glyph_draws(n: int, glyph_w: u32, glyph_h: u32) -> Seq<GlyphDraw>
    decreases n,
{
    if n <= 0 {
        Seq::empty()
    } else {
        let slot = n - 1;
        let cp = code_point_of(slot);
        let rest = glyph_draws(slot, glyph_w, glyph_h);
        if is_font_glyph(cp) {
            rest.push(
                GlyphDraw {
                    cp: cp as u32,
                    x: ((slot % (ATLAS_COLS as int)) * (2 * glyph_w)) as u32,
                    y: ((slot / (ATLAS_COLS as int)) * (2 * glyph_h)) as u32,
                },
            )
        } else {
            rest
        }
    }
}

impl GlyphAtlas {
    /// Whether an atlas for glyphs of the given size can be addressed.
    pub fn fits(glyph_w: u32, glyph_h: u32) -> (fits: bool)
        ensures
            fits == glyphs_fit(glyph_w, glyph_h),
    {
        if glyph_w < 1 || glyph_h < 1 {
            return false;
        }
        if glyph_w > 0x20_0000 || glyph_h > 0x20_0000 {
            assert((32 * (glyph_w + 2)) * (50 * (glyph_h + 2)) > 0xffff_ffff) by (nonlinear_arith)
                requires
                    glyph_w >= 1,
                    glyph_h >= 1,
                    glyph_w > 0x20_0000 || glyph_h > 0x20_0000,
            ;
            return false;
        }
        assert((32 * (glyph_w + 2)) * (50 * (glyph_h + 2)) <= 0x1000_0000 * 0x1000_0000)
            by (nonlinear_arith)
            requires
                glyph_w <= 0x20_0000,
                glyph_h <= 0x20_0000,
        ;
        assert((32 * (2 * glyph_w)) * (50 * (2 * glyph_h)) <= 0x1000_0000 * 0x1000_0000)
            by (nonlinear_arith)
            requires
                glyph_w <= 0x20_0000,
                glyph_h <= 0x20_0000,
        ;
        let (w, h): (u64, u64) = (glyph_w as u64, glyph_h as u64);
        let texels: u64 = (32 * (w + 2)) * (50 * (h + 2));
        let bytes: u64 = (32 * (2 * w)) * (50 * (2 * h)) * 4;
        texels <= u32::MAX as u64 && bytes <= u32::MAX as u64
    }

    /// Lays out the atlas for glyphs of the given size.
    pub fn new(glyph_w: u32, glyph_h: u32) -> (atlas: GlyphAtlas)
        requires
            glyphs_fit(glyph_w, glyph_h),
        ensures
            atlas.atlas_width == atlas_width(glyph_w),
            atlas.atlas_height == atlas_height(glyph_h),
            atlas.glyph_width == glyph_w,
            atlas.glyph_height == glyph_h,
            atlas.uv_map@.len() == ATLAS_SLOTS,
            forall|slot: int|
                0 <= slot < ATLAS_SLOTS ==> {
                    let e = #[trigger] atlas.uv_map@[slot];
                    (e.0 as int, e.1 as int, e.2 as int, e.3 as int) == slot_edges(
                        slot,
                        glyph_w,
                        glyph_h,
                    )
                },
    {
        proof {
            lemma_widths(glyph_w, glyph_h);
        }
        let mut uv_map: Vec<(u32, u32, u32, u32)> = Vec::new();
        let mut slot: u32 = 0;
        while slot < ATLAS_SLOTS
            invariant
                slot <= ATLAS_SLOTS,
                glyphs_fit(glyph_w, glyph_h),
                atlas_width(glyph_w) <= u32::MAX,
                atlas_height(glyph_h) <= u32::MAX,
                uv_map@.len() == slot,
                forall|k: int|
                    0 <= k < slot ==> {
                        let e = #[trigger] uv_map@[k];
                        (e.0 as int, e.1 as int, e.2 as int, e.3 as int) == slot_edges(
                            k,
                            glyph_w,
                            glyph_h,
                        )
                    },
            decreases ATLAS_SLOTS - slot,
        {
            proof {
                lemma_slot_inside(slot as int, glyph_w, glyph_h);
            }
            let x: u32 = (slot % ATLAS_COLS) * (glyph_w + ATLAS_PADDING);
            let y: u32 = (slot / ATLAS_COLS) * (glyph_h + ATLAS_PADDING);
            uv_map.push((x, y + glyph_h, x + glyph_w, y));
            slot += 1;
        }
        GlyphAtlas {
            atlas_width: ATLAS_COLS * (glyph_w + ATLAS_PADDING),
            atlas_height: ATLAS_ROWS * (glyph_h + ATLAS_PADDING),
            glyph_width: glyph_w,
            glyph_height: glyph_h,
            uv_map,
        }
    }

    /// The glyphs to paint on the canvas of the font pass, slot by slot.
    pub fn font_pass(glyph_w: u32, glyph_h: u32) -> (draws: Vec<GlyphDraw>)
        requires
            glyphs_fit(glyph_w, glyph_h),
        ensures
            draws@ == glyph_draws(ATLAS_SLOTS as int, glyph_w, glyph_h),
    {
        let ranges: [AtlasRange; 10] = ranges();
        let mut draws: Vec<GlyphDraw> = Vec::new();
        let mut k: usize = 0;
        let mut slot: u32 = 0;
        while k < 10
            invariant
                k <= 10,
                ranges@ == atlas_ranges(),
                glyphs_fit(glyph_w, glyph_h),
                slot == if k < 10 { atlas_ranges()[k as int].offset } else { ATLAS_SLOTS },
                draws@ == glyph_draws(slot as int, glyph_w, glyph_h),
            decreases 10 - k,
        {
            let range: AtlasRange = ranges[k];
            let mut i: u32 = 0;
            while i < range.len
                invariant
                    k < 10,
                    range == atlas_ranges()[k as int],
                    glyphs_fit(glyph_w, glyph_h),
                    i <= range.len,
                    slot == range.offset + i,
                    range.offset + range.len <= ATLAS_SLOTS,
                    range.start + range.len <= 0x2900,
                    draws@ == glyph_draws(slot as int, glyph_w, glyph_h),
                decreases range.len - i,
            {
                let cp: u32 = range.start + i;
                proof {
                    reveal_with_fuel(code_point_from, 11);
                    assert(code_point_of(slot as int) == cp);
                    lemma_widths(glyph_w, glyph_h);
                    lemma_canvas_alpha_at(slot as int, 0, 0, glyph_w, glyph_h);
                }
                if cp >= 0x20 && cp != 0x7f && !(0x2800 <= cp && cp <= 0x28ff) {
                    let x: u32 = (slot % ATLAS_COLS) * (2 * glyph_w);
                    let y: u32 = (slot / ATLAS_COLS) * (2 * glyph_h);
                    draws.push(GlyphDraw { cp, x, y });
                }
                i += 1;
                slot += 1;
            }
            k += 1;
        }
        draws
    }

    /// Bakes the bitmap of the atlas from the pixels of the font pass (none
    /// where nothing could be painted) and the braille dots.
    pub fn bake(glyph_w: u32, glyph_h: u32, pixels: &[u8], dots: &BrailleDots) -> (data: Vec<u8>)
        requires
            glyphs_fit(glyph_w, glyph_h),
            dots_fit(*dots, glyph_w, glyph_h),
        ensures
            data@.len() == atlas_width(glyph_w) * atlas_height(glyph_h),
            forall|p: int|
                0 <= p < data@.len() ==> #[trigger] data@[p] == baked(
                    p,
                    glyph_w,
                    glyph_h,
                    pixels@,
                    *dots,
                ),
    {
        proof {
            lemma_widths(glyph_w, glyph_h);
        }
        let w: u32 = ATLAS_COLS * (glyph_w + ATLAS_PADDING);
        let h: u32 = ATLAS_ROWS * (glyph_h + ATLAS_PADDING);
        let n: u32 = w * h;
        assert(n >= 1) by (nonlinear_arith)
            requires
                n == w * h,
                w >= 1,
                h >= 1,
        ;
        let mut data: Vec<u8> = vec![0u8; n as usize];
        GlyphAtlas::rasterize_atlas(&mut data, glyph_w, glyph_h, pixels);
        let ghost painted = data@;
        let mut i: u32 = 0;
        while i < BRAILLE_LEN
            invariant
                i <= BRAILLE_LEN,
                glyphs_fit(glyph_w, glyph_h),
                dots_fit(*dots, glyph_w, glyph_h),
                w == atlas_width(glyph_w),
                h == atlas_height(glyph_h),
                n == w * h,
                n >= 1,
                n == data@.len(),
                data@.len() == painted.len(),
                forall|p: int|
                    0 <= p < painted.len() ==> #[trigger] data@[p] == if braille_ink(
                        p,
                        i as int,
                        *dots,
                        glyph_w,
                        glyph_h,
                    ) {
                        255u8
                    } else {
                        painted[p]
                    },
            decreases BRAILLE_LEN - i,
        {
            let slot: u32 = BRAILLE_SLOT + i;
            proof {
                lemma_widths(glyph_w, glyph_h);
                lemma_slot_inside(slot as int, glyph_w, glyph_h);
            }
            let x: u32 = (slot % ATLAS_COLS) * (glyph_w + ATLAS_PADDING);
            let y: u32 = (slot / ATLAS_COLS) * (glyph_h + ATLAS_PADDING);
            assert((y + glyph_h) * w <= h * w) by (nonlinear_arith)
                requires
                    y + glyph_h <= h,
                    w >= 0,
            ;
            assert(h * w == w * h) by (nonlinear_arith);
            let ghost before = data@;
            GlyphAtlas::rasterize_braille(
                BRAILLE_START + i,
                glyph_w,
                glyph_h,
                &mut data,
                x,
                y,
                w,
                dots,
            );
            assert forall|p: int| 0 <= p < painted.len() implies #[trigger] data@[p] == (
            if braille_ink(p, i + 1, *dots, glyph_w, glyph_h) {
                255u8
            } else {
                painted[p]
            }) by {
                lemma_slot_rect(p, slot as int, glyph_w, glyph_h);
                assert(before[p] == (if braille_ink(p, i as int, *dots, glyph_w, glyph_h) {
                    255u8
                } else {
                    painted[p]
                }));
            }
            i += 1;
        }
        data.set((n - 1) as usize, 255);
        data
    }

    /// The edges of the slot of a character, in texels, if it has a slot.
    pub fn uv_for(&self, ch: char) -> (edges: Option<(u32, u32, u32, u32)>)
        ensures
            edges == char_edges(self.uv_map@, ch),
    {
        match atlas_slot(ch as u32) {
            Some(slot) => if (slot as usize) < self.uv_map.len() {
                Some(self.uv_map[slot as usize])
            } else {
                None
            },
            None => None,
        }
    }

    /// The opaque texel that flat color fills sample.
    pub fn solid_texel(&self) -> (texel: (u32, u32))
        requires
            self.atlas_width >= 1,
            self.atlas_height >= 1,
        ensures
            texel == ((self.atlas_width - 1) as u32, (self.atlas_height - 1) as u32),
    {
        (self.atlas_width - 1, self.atlas_height - 1)
    }
}

/// The edges of the slot of a character, among the edges of all slots.
pub open spec fn char_edges(uv_map: Seq<(u32, u32, u32, u32)>, ch: char) -> Option<
    (u32, u32, u32, u32),
> {
    match slot_of(ch as u32) {
        Some(slot) => if slot < uv_map.len() {
            Some(uv_map[slot])
        } else {
            None
        },
        None => None,
    }
}

/// No two slots overlap: a texel lies in the rectangles of two slots only if
/// they are the same.
pub proof fn lemma_slots_do_not_overlap(p: int, a: int, b: int, glyph_w: u32, glyph_h: u32)
    requires
        glyphs_fit(glyph_w, glyph_h),
        0 <= p,
        0 <= a < ATLAS_SLOTS,
        0 <= b < ATLAS_SLOTS,
        in_rect(
            p,
            atlas_width(glyph_w),
            slot_x(a, glyph_w),
            slot_y(a, glyph_h),
            glyph_w as int,
            glyph_h as int,
        ),
        in_rect(
            p,
            atlas_width(glyph_w),
            slot_x(b, glyph_w),
            slot_y(b, glyph_h),
            glyph_w as int,
            glyph_h as int,
        ),
    ensures
        a == b,
{
    lemma_slot_rect(p, a, glyph_w, glyph_h);
    lemma_slot_rect(p, b, glyph_w, glyph_h);
}

/// The opaque texel belongs to no slot, so no glyph shows it.
pub proof fn lemma_solid_texel_is_in_no_slot(glyph_w: u32, glyph_h: u32)
    requires
        glyphs_fit(glyph_w, glyph_h),
    ensures
        texel_slot(atlas_width(glyph_w) * atlas_height(glyph_h) - 1, glyph_w, glyph_h) is None,
{
    let w = atlas_width(glyph_w);
    let h = atlas_height(glyph_h);
    let p = w * h - 1;
    assert(p == (h - 1) * w + (w - 1)) by (nonlinear_arith)
        requires
            p == w * h - 1,
    ;
    lemma_widths(glyph_w, glyph_h);
    lemma_fundamental_div_mod_converse(p, w, h - 1, w - 1);
    let m = pitch(glyph_w);
    assert(w - 1 == 31 * m + (m - 1)) by (nonlinear_arith)
        requires
            w == 32 * m,
    ;
    lemma_fundamental_div_mod_converse(w - 1, m, 31, m - 1);
}

/// Whether no dot reaches the center of another one, and all centers lie
/// inside of the slot.
pub open spec fn dots_apart(dots: BrailleDots, glyph_w: u32, glyph_h: u32) -> bool {
    forall|d: u32, e: u32|
        #![trigger dots.xs@[dot_col(d as int)], dots.ys@[dot_row(e as int)]]
        d < 8 && e < 8 ==> {
            let x = dots.xs@[dot_col(d as int)] as int;
            let y = dots.ys@[dot_row(d as int)] as int;
            x < glyph_w && y < glyph_h && (d != e ==> !dot_covers(dots, e as int, x, y))
        }
}

/// Different braille patterns bake different bitmaps: there is a texel of the
/// slot that one of them inks and the other does not.
pub proof fn lemma_braille_patterns_differ(
    a: u32,
    b: u32,
    dots: BrailleDots,
    glyph_w: u32,
    glyph_h: u32,
)
    requires
        BRAILLE_START <= a < BRAILLE_START + BRAILLE_LEN,
        BRAILLE_START <= b < BRAILLE_START + BRAILLE_LEN,
        a != b,
        dots_apart(dots, glyph_w, glyph_h),
    ensures
        exists|gx: int, gy: int|
            0 <= gx < glyph_w && 0 <= gy < glyph_h && (#[trigger] inked(a, dots, gx, gy) != inked(
                b,
                dots,
                gx,
                gy,
            )),
{
    assert(exists|d: u32| d < 8 && #[trigger] has_dot(a, d) != has_dot(b, d)) by {
        assert(a == b || (a & (1u32 << 0u32) != 0) != (b & (1u32 << 0u32) != 0) || (a & (1u32
            << 1u32) != 0) != (b & (1u32 << 1u32) != 0) || (a & (1u32 << 2u32) != 0) != (b & (1u32
            << 2u32) != 0) || (a & (1u32 << 3u32) != 0) != (b & (1u32 << 3u32) != 0) || (a & (1u32
            << 4u32) != 0) != (b & (1u32 << 4u32) != 0) || (a & (1u32 << 5u32) != 0) != (b & (1u32
            << 5u32) != 0) || (a & (1u32 << 6u32) != 0) != (b & (1u32 << 6u32) != 0) || (a & (1u32
            << 7u32) != 0) != (b & (1u32 << 7u32) != 0)) by (bit_vector)
            requires
                0x2800 <= a < 0x2900,
                0x2800 <= b < 0x2900,
        ;
        assert(has_dot(a, 0) == has_dot(b, 0) && has_dot(a, 1) == has_dot(b, 1) && has_dot(a, 2)
            == has_dot(b, 2) && has_dot(a, 3) == has_dot(b, 3) && has_dot(a, 4) == has_dot(b, 4)
            && has_dot(a, 5) == has_dot(b, 5) && has_dot(a, 6) == has_dot(b, 6) && has_dot(a, 7)
            == has_dot(b, 7) ==> false);
    }
    let d = choose|d: u32| d < 8 && #[trigger] has_dot(a, d) != has_dot(b, d);
    let gx = dots.xs@[dot_col(d as int)] as int;
    let gy = dots.ys@[dot_row(d as int)] as int;
    let (with, without) = if has_dot(a, d) {
        (a, b)
    } else {
        (b, a)
    };
    assert(dot_covers(dots, d as int, gx, gy));
    assert(has_dot(with, d));
    assert(inked(with, dots, gx, gy));
    assert(!inked(without, dots, gx, gy)) by {
        assert forall|e: u32| e < 8 && #[trigger] has_dot(without, e) implies !dot_covers(
            dots,
            e as int,
            gx,
            gy,
        ) by {
            assert(e != d);
            assert(dots.ys@[dot_row(e as int)] == dots.ys@[dot_row(e as int)]);
        }
    }
    assert(dots.ys@[dot_row(d as int)] == gy);
}

/// Of all braille patterns only the one without dots leaves its slot blank.
pub proof fn lemma_only_the_empty_pattern_is_blank(
    cp: u32,
    dots: BrailleDots,
    glyph_w: u32,
    glyph_h: u32,
)
    requires
        BRAILLE_START <= cp < BRAILLE_START + BRAILLE_LEN,
        dots_apart(dots, glyph_w, glyph_h),
    ensures
        cp == BRAILLE_START <==> forall|gx: int, gy: int|
            0 <= gx < glyph_w && 0 <= gy < glyph_h ==> !#[trigger] inked(cp, dots, gx, gy),
{
    assert forall|gx: int, gy: int| !#[trigger] inked(BRAILLE_START, dots, gx, gy) by {
        assert forall|dot: u32| dot < 8 implies !#[trigger] has_dot(BRAILLE_START, dot) by {
            assert(0x2800u32 & (1u32 << dot) == 0) by (bit_vector)
                requires
                    dot < 8,
            ;
        }
    }
    if cp != BRAILLE_START {
        lemma_braille_patterns_differ(cp, BRAILLE_START, dots, glyph_w, glyph_h);
    }
}

/// Which characters have a slot: ASCII, Latin-1, general punctuation, currency
/// symbols, arrows, mathematical operators, block elements and geometric
/// shapes, miscellaneous symbols, dingbats and braille.
pub proof fn lemma_characters_with_a_slot(cp: u32)
    ensures
        slot_of(cp) is Some <==> {
            ||| cp < 0x80
            ||| 0xa0 <= cp < 0x100
            ||| 0x2000 <= cp < 0x2070
            ||| 0x20a0 <= cp < 0x20d0
            ||| 0x2190 <= cp < 0x2300
            ||| 0x2580 <= cp < 0x27c0
            ||| 0x2800 <= cp < 0x2900
        },
{
    reveal_with_fuel(slot_from, 11);
}

/// Characters that follow each other in one of these groups have slots that
/// follow each other.
pub proof fn lemma_neighbouring_characters_have_neighbouring_slots(cp: u32)
    requires
        cp < 0x7f || 0xa0 <= cp < 0xff || 0x2000 <= cp < 0x206f || 0x20a0 <= cp < 0x20cf || 0x2190 <= cp
            < 0x22ff || 0x2580 <= cp < 0x25ff || 0x2600 <= cp < 0x26ff || 0x2700 <= cp < 0x27bf || 0x2800
            <= cp < 0x28ff,
    ensures
        slot_of((cp + 1) as u32) == Some(slot_of(cp)->0 + 1),
{
    reveal_with_fuel(slot_from, 11);
}

/// The slots stand in rows of 32, two texels apart, from the upper left corner
/// on, and each is as large as a glyph.
pub proof fn lemma_slots_stand_in_rows_of_32(slot: int, glyph_w: u32, glyph_h: u32)
    requires
        0 <= slot,
    ensures
        ({
            let at = slot_edges(slot, glyph_w, glyph_h);
            let next = slot_edges(slot + 1, glyph_w, glyph_h);
            let below = slot_edges(slot + 32, glyph_w, glyph_h);
            &&& slot == 0 ==> at.0 == 0 && at.3 == 0
            &&& at.2 - at.0 == glyph_w && at.1 - at.3 == glyph_h
            &&& slot % 32 != 31 ==> next.0 == at.2 + 2 && next.3 == at.3
            &&& below.0 == at.0 && below.3 == at.1 + 2
            &&& slot_x(slot, glyph_w) == at.0 && slot_y(slot, glyph_h) == at.3
        }),
        atlas_width(glyph_w) == 32 * (glyph_w + 2),
        atlas_height(glyph_h) == 50 * (glyph_h + 2),
{
    let (w, h) = (glyph_w + 2, glyph_h + 2);
    let (row, col) = (slot / 32, slot % 32);
    assert((row + 1) * h == row * h + h) by (nonlinear_arith);
    assert((col + 1) * w == col * w + w) by (nonlinear_arith);
    assert((slot + 32) / 32 == row + 1 && (slot + 32) % 32 == col);
    if col != 31 {
        assert((slot + 1) / 32 == row && (slot + 1) % 32 == col + 1);
    }
    if slot == 0 {
        assert(0 * w == 0 && 0 * h == 0) by (nonlinear_arith);
    }
}

/// The glyphs of the font pass that were painted for the first `n` slots: each
/// is that of its slot, and the atlas reads its texels where it was painted.
proof fn lemma_glyph_draws(n: int, i: int, glyph_w: u32, glyph_h: u32)
    requires
        glyphs_fit(glyph_w, glyph_h),
        0 <= n <= ATLAS_SLOTS,
        0 <= i < glyph_draws(n, glyph_w, glyph_h).len(),
    ensures
        ({
            let draw = glyph_draws(n, glyph_w, glyph_h)[i];
            let slot = slot_of(draw.cp)->0;
            &&& slot_of(draw.cp) is Some && 0 <= slot < n
            &&& is_font_glyph(draw.cp as int)
            &&& draw.x == (slot % 32) * (2 * glyph_w)
            &&& draw.y == (slot / 32) * (2 * glyph_h)
        }),
    decreases n,
{
    if n > 0 {
        let slot = n - 1;
        let fewer = glyph_draws(slot, glyph_w, glyph_h);
        if i < fewer.len() {
            lemma_glyph_draws(slot, i, glyph_w, glyph_h);
            assert(glyph_draws(n, glyph_w, glyph_h)[i] == fewer[i]);
        } else {
            lemma_slots_and_code_points_match(slot, 0);
            lemma_widths(glyph_w, glyph_h);
            lemma_canvas_alpha_at(slot, 0, 0, glyph_w, glyph_h);
        }
    }
}

/// The atlas reads every glyph where the font pass painted it: the alpha of a
/// texel of a slot is that of the pixel as far right of and below the place of
/// the slot's glyph on the canvas. Control codes and braille are not painted.
pub proof fn lemma_glyphs_are_read_where_they_are_painted(
    i: int,
    gx: int,
    gy: int,
    glyph_w: u32,
    glyph_h: u32,
)
    requires
        glyphs_fit(glyph_w, glyph_h),
        0 <= i < glyph_draws(ATLAS_SLOTS as int, glyph_w, glyph_h).len(),
        0 <= gx < glyph_w,
        0 <= gy < glyph_h,
    ensures
        ({
            let draw = glyph_draws(ATLAS_SLOTS as int, glyph_w, glyph_h)[i];
            &&& slot_of(draw.cp) is Some
            &&& canvas_alpha_at(slot_of(draw.cp)->0, gx, gy, glyph_w, glyph_h) == 4 * ((draw.y + gy)
                * canvas_width(glyph_w) + draw.x + gx) + 3
            &&& draw.x + 2 * glyph_w <= canvas_width(glyph_w)
            &&& draw.y + 2 * glyph_h <= canvas_height(glyph_h)
            &&& draw.cp >= 0x20 && draw.cp != 0x7f && !(0x2800 <= draw.cp <= 0x28ff)
        }),
{
    lemma_glyph_draws(ATLAS_SLOTS as int, i, glyph_w, glyph_h);
    let draw = glyph_draws(ATLAS_SLOTS as int, glyph_w, glyph_h)[i];
    let slot = slot_of(draw.cp)->0;
    let (row, col) = (slot / 32, slot % 32);
    assert(col * (2 * glyph_w) + 2 * glyph_w <= 32 * (2 * glyph_w)) by (nonlinear_arith)
        requires
            0 <= col < 32,
            glyph_w >= 0,
    ;
    assert(row * (2 * glyph_h) + 2 * glyph_h <= 50 * (2 * glyph_h)) by (nonlinear_arith)
        requires
            0 <= row < 50,
            glyph_h >= 0,
    ;
}

/// Every character that has a slot is painted by the font pass, but for the
/// control codes and braille.
pub proof fn lemma_every_glyph_is_painted(cp: u32, n: int, glyph_w: u32, glyph_h: u32)
    requires
        slot_of(cp) is Some,
        slot_of(cp)->0 < n <= ATLAS_SLOTS,
        cp >= 0x20 && cp != 0x7f && !(0x2800 <= cp <= 0x28ff),
    ensures
        exists|i: int|
            0 <= i < glyph_draws(n, glyph_w, glyph_h).len() && (#[trigger] glyph_draws(
                n,
                glyph_w,
                glyph_h,
            )[i]).cp == cp,
    decreases n,
{
    lemma_slots_and_code_points_match(0, cp);
    let all = glyph_draws(n, glyph_w, glyph_h);
    let fewer = glyph_draws(n - 1, glyph_w, glyph_h);
    if slot_of(cp)->0 == n - 1 {
        assert(all[fewer.len() as int].cp == cp);
    } else {
        lemma_every_glyph_is_painted(cp, n - 1, glyph_w, glyph_h);
        let i = choose|i: int| 0 <= i < fewer.len() && (#[trigger] fewer[i]).cp == cp;
        assert(all[i] == fewer[i]);
    }
}

/// What the finished atlas shows between the edges of a slot: the alpha that
/// the canvas has for the slot's glyph, and for a braille pattern its dots over
/// it.
pub proof fn lemma_slots_show_their_glyphs(
    slot: int,
    gx: int,
    gy: int,
    glyph_w: u32,
    glyph_h: u32,
    pixels: Seq<u8>,
    dots: BrailleDots,
)
    requires
        glyphs_fit(glyph_w, glyph_h),
        0 <= slot < ATLAS_SLOTS,
        0 <= gx < glyph_w,
        0 <= gy < glyph_h,
    ensures
        ({
            let edges = slot_edges(slot, glyph_w, glyph_h);
            let p = (edges.3 + gy) * atlas_width(glyph_w) + edges.0 + gx;
            let cp = code_point_of(slot);
            let alpha = if pixels.len() >= canvas_bytes(glyph_w, glyph_h) {
                pixels[canvas_alpha_at(slot, gx, gy, glyph_w, glyph_h)]
            } else {
                0
            };
            baked(p, glyph_w, glyph_h, pixels, dots) == if 0x2800 <= cp <= 0x28ff && inked(
                cp as u32,
                dots,
                gx,
                gy,
            ) {
                255
            } else {
                alpha
            }
        }),
{
    let w = atlas_width(glyph_w);
    let h = atlas_height(glyph_h);
    let x = slot_x(slot, glyph_w) + gx;
    let y = slot_y(slot, glyph_h) + gy;
    let p = y * w + x;
    lemma_slot_inside(slot, glyph_w, glyph_h);
    lemma_texel_inside(w, x, y, h);
    lemma_fundamental_div_mod_converse(p, w, y, x);
    lemma_slot_rect(p, slot, glyph_w, glyph_h);
    assert(texel_slot(p, glyph_w, glyph_h) == Some((slot, gx, gy)));
    lemma_solid_texel_is_in_no_slot(glyph_w, glyph_h);
    assert(p == (slot_edges(slot, glyph_w, glyph_h).3 + gy) * w + slot_edges(slot, glyph_w, glyph_h).0
        + gx);
    reveal_with_fuel(code_point_from, 11);
}

/// The dots of a braille pattern: dots 1 to 3 go down the left column, 4 to 6
/// down the right one, and 7 and 8 are below them. A dot is a square around its
/// center, and the lowest bits of the code point tell which dots there are.
pub proof fn lemma_braille_dots(dot: u32, dots: BrailleDots, gx: int, gy: int)
    requires
        dot < 8,
    ensures
        ({
            let (row, col) = (dot_row(dot as int), dot_col(dot as int));
            &&& dot < 3 ==> (row, col) == (dot as int, 0int)
            &&& 3 <= dot < 6 ==> (row, col) == (dot - 3, 1int)
            &&& dot >= 6 ==> (row, col) == (3int, dot - 6)
            &&& dot_covers(dots, dot as int, gx, gy) <==> {
                &&& gx - dots.xs@[col] <= dots.reach && dots.xs@[col] - gx <= dots.reach
                &&& gy - dots.ys@[row] <= dots.reach && dots.ys@[row] - gy <= dots.reach
            }
        }),
        has_dot((0x2800u32 + (1u32 << dot)) as u32, dot),
        forall|other: u32|
            other < 8 && other != dot ==> !#[trigger] has_dot((0x2800u32 + (1u32 << dot)) as u32, other),
{
    assert(((0x2800u32 + (1u32 << dot)) as u32) & (1u32 << dot) != 0) by (bit_vector)
        requires
            dot < 8,
    ;
    assert forall|other: u32| other < 8 && other != dot implies !#[trigger] has_dot(
        (0x2800u32 + (1u32 << dot)) as u32,
        other,
    ) by {
        assert(((0x2800u32 + (1u32 << dot)) as u32) & (1u32 << other) == 0) by (bit_vector)
            requires
                dot < 8,
                other < 8,
                other != dot,
        ;
    }
}

/// Adding a dot to a pattern inks the texels of that dot and no others.
pub proof fn lemma_dots_are_inked_one_by_one(
    cp: u32,
    more: u32,
    dot: u32,
    dots: BrailleDots,
    gx: int,
    gy: int,
)
    requires
        dot < 8,
        has_dot(more, dot),
        forall|d: u32| d < 8 && d != dot ==> #[trigger] has_dot(more, d) == has_dot(cp, d),
    ensures
        inked(more, dots, gx, gy) <==> inked(cp, dots, gx, gy) || dot_covers(
            dots,
            dot as int,
            gx,
            gy,
        ),
{
    if inked(more, dots, gx, gy) {
        let d = choose|d: u32| d < 8 && #[trigger] has_dot(more, d) && dot_covers(dots, d as int, gx, gy);
        if d != dot {
            assert(has_dot(cp, d));
        }
    }
    if inked(cp, dots, gx, gy) {
        let d = choose|d: u32| d < 8 && #[trigger] has_dot(cp, d) && dot_covers(dots, d as int, gx, gy);
        assert(has_dot(more, d));
    }
}

/// A character is drawn from the edges of its own slot.
pub proof fn lemma_characters_use_their_own_slot(
    uv_map: Seq<(u32, u32, u32, u32)>,
    ch: char,
    slot: int,
)
    requires
        uv_map.len() == ATLAS_SLOTS,
        0 <= slot < ATLAS_SLOTS,
    ensures
        code_point_of(slot) == ch as int ==> char_edges(uv_map, ch) == Some(uv_map[slot]),
        char_edges(uv_map, ch) is Some <==> slot_of(ch as u32) is Some,
{
    lemma_slots_and_code_points_match(slot, ch as u32);
}

/// The texels between the slots stay transparent, so that no glyph bleeds into
/// its neighbour; only the very last texel is opaque.
pub proof fn lemma_padding_is_transparent(
    p: int,
    glyph_w: u32,
    glyph_h: u32,
    pixels: Seq<u8>,
    dots: BrailleDots,
)
    requires
        glyphs_fit(glyph_w, glyph_h),
        0 <= p < atlas_width(glyph_w) * atlas_height(glyph_h),
        forall|slot: int|
            0 <= slot < ATLAS_SLOTS ==> {
                let edges = #[trigger] slot_edges(slot, glyph_w, glyph_h);
                !in_rect(
                    p,
                    atlas_width(glyph_w),
                    edges.0,
                    edges.3,
                    glyph_w as int,
                    glyph_h as int,
                )
            },
    ensures
        baked(p, glyph_w, glyph_h, pixels, dots) == if p == atlas_width(glyph_w) * atlas_height(
            glyph_h,
        ) - 1 {
            255u8
        } else {
            0u8
        },
{
    lemma_slot_of_texel_is_one(p, glyph_w, glyph_h);
    if let Some((slot, _gx, _gy)) = texel_slot(p, glyph_w, glyph_h) {
        lemma_slot_rect(p, slot, glyph_w, glyph_h);
        let edges = slot_edges(slot, glyph_w, glyph_h);
        assert(edges.0 == slot_x(slot, glyph_w));
    }
}

/// An atlas can be laid out for every size of glyph at which its texels and the
/// bytes of the canvas can be counted; the canvas has twice the size of a glyph
/// for each of 32 by 50 slots.
pub proof fn lemma_glyph_sizes_that_fit(glyph_w: u32, glyph_h: u32)
    ensures
        canvas_width(glyph_w) == 64 * glyph_w,
        canvas_height(glyph_h) == 100 * glyph_h,
        canvas_bytes(glyph_w, glyph_h) == 4 * (canvas_width(glyph_w) * canvas_height(glyph_h)),
        glyphs_fit(glyph_w, glyph_h) <==> {
            &&& glyph_w > 0 && glyph_h > 0
            &&& (32 * (glyph_w + 2)) * (50 * (glyph_h + 2)) <= 0xffff_ffff
            &&& 4 * ((64 * glyph_w) * (100 * glyph_h)) <= 0xffff_ffff
        },
{
}

/// Dots fit a slot when their centers are not outside of it and they are no
/// wider than it is.
pub proof fn lemma_dots_that_fit(dots: BrailleDots, glyph_w: u32, glyph_h: u32)
    ensures
        dots_fit(dots, glyph_w, glyph_h) <==> {
            &&& forall|i: int| 0 <= i < 2 ==> #[trigger] dots.xs@[i] <= glyph_w
            &&& forall|i: int| 0 <= i < 4 ==> #[trigger] dots.ys@[i] <= glyph_h
            &&& dots.reach <= glyph_w
        },
{
}

/// The font pass copies what the canvas shows and leaves alone what it does not
/// cover.
pub proof fn lemma_font_pass_keeps_what_is_not_painted(
    before: u8,
    p: int,
    glyph_w: u32,
    glyph_h: u32,
    pixels: Seq<u8>,
)
    ensures
        texel_slot(p, glyph_w, glyph_h) is None ==> after_font_pass(
            before,
            p,
            glyph_w,
            glyph_h,
            pixels,
        ) == before,
        texel_slot(p, glyph_w, glyph_h) matches Some((slot, gx, gy)) ==> {
            let alpha = pixels[canvas_alpha_at(slot, gx, gy, glyph_w, glyph_h)];
            let after = after_font_pass(before, p, glyph_w, glyph_h, pixels);
            (alpha == 0 ==> after == before) && (alpha != 0 ==> after == alpha)
        },
{
}

} // verus!
