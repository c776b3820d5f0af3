//! The glyph atlas of the printable ASCII characters and the quads that draw
//! a grid from it.

use crate::client::instances::{cell_char, grid_fits};
use crate::client::paint::{painted_cell, read_painted_cell};
use crate::client::screen::{
    grid_cols, grid_rows, screen_size, shown_cols, shown_rows, vt_size,
};
use vstd::arithmetic::div_mod::{lemma_fundamental_div_mod, lemma_fundamental_div_mod_converse};
use vstd::prelude::*;

verus! {

/// Texels between two slots.
pub const ATLAS_PADDING: u32 = 2;

/// Slots in a row of the atlas.
pub const ATLAS_COLS: u32 = 16;

/// Rows of slots in the atlas.
pub const ATLAS_ROWS: u32 = 6;

/// Slots in the atlas: the characters from space to `~`.
pub const ATLAS_SLOTS: u32 = 95;

/// The code point of the first slot.
pub const FIRST_ASCII: u32 = 32;

/// Texels in a row of the atlas.
pub open spec fn atlas_width(glyph_w: u32) -> int {
    ATLAS_COLS * (glyph_w + ATLAS_PADDING)
}

/// Rows of texels in the atlas.
pub open spec fn atlas_height(glyph_h: u32) -> int {
    ATLAS_ROWS * (glyph_h + ATLAS_PADDING)
}

/// Left edge of a slot.
pub open spec fn slot_x(slot: int, glyph_w: u32) -> int {
    (slot % (ATLAS_COLS as int)) * (glyph_w + ATLAS_PADDING)
}

/// Upper edge of a slot.
pub open spec fn slot_y(slot: int, glyph_h: u32) -> int {
    (slot / (ATLAS_COLS as int)) * (glyph_h + ATLAS_PADDING)
}

/// Whether an atlas for glyphs of this size can be addressed.
pub open spec fn glyphs_fit(glyph_w: u32, glyph_h: u32) -> bool {
    atlas_width(glyph_w) * atlas_height(glyph_h) <= u32::MAX
}

/// The edges of a slot: left, upper, right and lower.
pub open spec fn slot_edges(slot: int, glyph_w: u32, glyph_h: u32) -> (int, int, int, int) {
    let x = slot_x(slot, glyph_w);
    let y = slot_y(slot, glyph_h);
    (x, y, x + glyph_w, y + glyph_h)
}

/// The layout of the atlas for one glyph size.
pub struct GlyphAtlas {
    /// Texels in a row.
    pub atlas_width: u32,
    /// Rows of texels.
    pub atlas_height: u32,
    /// Width of a slot.
    pub glyph_width: u32,
    /// Height of a slot.
    pub glyph_height: u32,
    /// Left, upper, right and lower edge of every slot, in texels.
    pub uv_map: Vec<(u32, u32, u32, u32)>,
}

/// The edges of the slot of a character, if it has one.
pub open spec fn char_edges(uv_map: Seq<(u32, u32, u32, u32)>, ch: char) -> Option<
    (u32, u32, u32, u32),
> {
    let slot = ch as int - FIRST_ASCII;
    if 0 <= slot < uv_map.len() {
        Some(uv_map[slot])
    } else {
        None
    }
}

proof fn lemma_sizes(glyph_w: u32, glyph_h: u32)
    requires
        glyphs_fit(glyph_w, glyph_h),
    ensures
        32 <= atlas_width(glyph_w) <= u32::MAX,
        12 <= atlas_height(glyph_h) <= u32::MAX,
{
    let w = atlas_width(glyph_w);
    let h = atlas_height(glyph_h);
    assert(w <= w * h) by (nonlinear_arith)
        requires
            w >= 0,
            h >= 1,
    ;
    assert(h <= w * h) by (nonlinear_arith)
        requires
            w >= 1,
            h >= 0,
    ;
}

proof fn lemma_slot_inside(slot: int, glyph_w: u32, glyph_h: u32)
    requires
        0 <= slot < ATLAS_SLOTS,
    ensures
        0 <= slot_x(slot, glyph_w),
        slot_x(slot, glyph_w) + glyph_w < atlas_width(glyph_w),
        0 <= slot_y(slot, glyph_h),
        slot_y(slot, glyph_h) + glyph_h < atlas_height(glyph_h),
{
    let row = slot / (ATLAS_COLS as int);
    let col = slot % (ATLAS_COLS as int);
    let pw = glyph_w + ATLAS_PADDING;
    let ph = glyph_h + ATLAS_PADDING;
    assert(0 <= row < 6 && 0 <= col < 16);
    assert(0 <= col * pw && col * pw + pw <= 16 * pw) by (nonlinear_arith)
        requires
            0 <= col < 16,
            pw > 0,
    ;
    assert(0 <= row * ph && row * ph + ph <= 6 * ph) by (nonlinear_arith)
        requires
            0 <= row < 6,
            ph > 0,
    ;
}

/// Where the coverage at (`gx`, `gy`) of a glyph is stored: the texels of the
/// atlas follow each other row by row.
pub open spec fn coverage_at(slot: int, gx: int, gy: int, glyph_w: u32, glyph_h: u32) -> int {
    (slot_y(slot, glyph_h) + gy) * atlas_width(glyph_w) + slot_x(slot, glyph_w) + gx
}

proof fn lemma_coverage_inside(slot: int, gx: int, gy: int, glyph_w: u32, glyph_h: u32)
    requires
        0 <= slot < ATLAS_SLOTS,
        0 <= gx < glyph_w,
        0 <= gy < glyph_h,
    ensures
        0 <= (slot_y(slot, glyph_h) + gy) * atlas_width(glyph_w) <= coverage_at(
            slot,
            gx,
            gy,
            glyph_w,
            glyph_h,
        ) < atlas_width(glyph_w) * atlas_height(glyph_h),
{
    lemma_slot_inside(slot, glyph_w, glyph_h);
    let w = atlas_width(glyph_w);
    let h = atlas_height(glyph_h);
    let x = slot_x(slot, glyph_w) + gx;
    let y = slot_y(slot, glyph_h) + gy;
    assert(0 <= y * w && y * w + x < w * h) by (nonlinear_arith)
        requires
            0 <= x < w,
            0 <= y <= h - 1,
    ;
}

/// No two glyphs share a texel, and no two texels of a glyph are the same.
pub proof fn lemma_texels_are_not_shared(
    p: int,
    px: int,
    py: int,
    q: int,
    qx: int,
    qy: int,
    glyph_w: u32,
    glyph_h: u32,
)
    requires
        0 <= p < ATLAS_SLOTS,
        0 <= q < ATLAS_SLOTS,
        0 <= px < glyph_w,
        0 <= qx < glyph_w,
        0 <= py < glyph_h,
        0 <= qy < glyph_h,
        coverage_at(p, px, py, glyph_w, glyph_h) == coverage_at(q, qx, qy, glyph_w, glyph_h),
    ensures
        p == q && px == qx && py == qy,
{
    lemma_slot_inside(p, glyph_w, glyph_h);
    lemma_slot_inside(q, glyph_w, glyph_h);
    let w = atlas_width(glyph_w);
    let texel = coverage_at(p, px, py, glyph_w, glyph_h);
    let pw = glyph_w + ATLAS_PADDING;
    let ph = glyph_h + ATLAS_PADDING;
    let cols = ATLAS_COLS as int;
    lemma_fundamental_div_mod_converse(
        texel,
        w,
        slot_y(p, glyph_h) + py,
        slot_x(p, glyph_w) + px,
    );
    lemma_fundamental_div_mod_converse(
        texel,
        w,
        slot_y(q, glyph_h) + qy,
        slot_x(q, glyph_w) + qx,
    );
    let x = slot_x(p, glyph_w) + px;
    let y = slot_y(p, glyph_h) + py;
    lemma_fundamental_div_mod_converse(x, pw, p % cols, px);
    lemma_fundamental_div_mod_converse(x, pw, q % cols, qx);
    lemma_fundamental_div_mod_converse(y, ph, p / cols, py);
    lemma_fundamental_div_mod_converse(y, ph, q / cols, qy);
    lemma_fundamental_div_mod(p, cols);
    lemma_fundamental_div_mod(q, cols);
}

/// The bitmap after the first `n` coverage values of a glyph: each that lies
/// inside of the slot is stored, the others are dropped.
pub open spec fn with_glyph(
    data: Seq<u8>,
    slot: int,
    coverage: Seq<(u32, u32, u8)>,
    n: int,
    glyph_w: u32,
    glyph_h: u32,
) -> Seq<u8>
    decreases n,
{
    if n <= 0 {
        data
    } else {
        let before = with_glyph(data, slot, coverage, n - 1, glyph_w, glyph_h);
        let (gx, gy, value) = coverage[n - 1];
        if gx < glyph_w && gy < glyph_h {
            before.update(coverage_at(slot, gx as int, gy as int, glyph_w, glyph_h), value)
        } else {
            before
        }
    }
}

/// The bitmap after the first `n` glyphs have been stored in a blank one.
pub open spec fn with_glyphs(
    glyphs: Seq<Vec<(u32, u32, u8)>>,
    n: int,
    glyph_w: u32,
    glyph_h: u32,
) -> Seq<u8>
    decreases n,
{
    if n <= 0 {
        Seq::new((atlas_width(glyph_w) * atlas_height(glyph_h)) as nat, |i: int| 0u8)
    } else {
        let before = with_glyphs(glyphs, n - 1, glyph_w, glyph_h);
        if n - 1 < glyphs.len() {
            with_glyph(
                before,
                n - 1,
                glyphs[n - 1]@,
                glyphs[n - 1]@.len() as int,
                glyph_w,
                glyph_h,
            )
        } else {
            before
        }
    }
}

/// The coverage of a glyph at (`gx`, `gy`): the last of its first `n` values
/// there, if it has one.
pub open spec fn coverage_of(coverage: Seq<(u32, u32, u8)>, n: int, gx: int, gy: int) -> Option<u8>
    decreases n,
{
    if n <= 0 {
        None
    } else if coverage[n - 1].0 == gx && coverage[n - 1].1 == gy {
        Some(coverage[n - 1].2)
    } else {
        coverage_of(coverage, n - 1, gx, gy)
    }
}

/// Storing a glyph puts its coverage in its slot and leaves the texels of all
/// other glyphs as they are.
pub proof fn lemma_glyphs_are_stored_in_their_slots(
    data: Seq<u8>,
    slot: int,
    coverage: Seq<(u32, u32, u8)>,
    n: int,
    glyph_w: u32,
    glyph_h: u32,
    at: int,
    gx: int,
    gy: int,
)
    requires
        data.len() == atlas_width(glyph_w) * atlas_height(glyph_h),
        0 <= slot < ATLAS_SLOTS,
        0 <= at < ATLAS_SLOTS,
        0 <= gx < glyph_w,
        0 <= gy < glyph_h,
        0 <= n <= coverage.len(),
    ensures
        with_glyph(data, slot, coverage, n, glyph_w, glyph_h).len() == data.len(),
        with_glyph(data, slot, coverage, n, glyph_w, glyph_h)[coverage_at(
            at,
            gx,
            gy,
            glyph_w,
            glyph_h,
        )] == match coverage_of(coverage, n, gx, gy) {
            Some(value) if at == slot => value,
            _ => data[coverage_at(at, gx, gy, glyph_w, glyph_h)],
        },
    decreases n,
{
    lemma_coverage_inside(at, gx, gy, glyph_w, glyph_h);
    if n > 0 {
        lemma_glyphs_are_stored_in_their_slots(
            data,
            slot,
            coverage,
            n - 1,
            glyph_w,
            glyph_h,
            at,
            gx,
            gy,
        );
        let (x, y, value) = coverage[n - 1];
        if x < glyph_w && y < glyph_h {
            lemma_coverage_inside(slot, x as int, y as int, glyph_w, glyph_h);
            if coverage_at(slot, x as int, y as int, glyph_w, glyph_h) == coverage_at(
                at,
                gx,
                gy,
                glyph_w,
                glyph_h,
            ) {
                lemma_texels_are_not_shared(
                    slot,
                    x as int,
                    y as int,
                    at,
                    gx,
                    gy,
                    glyph_w,
                    glyph_h,
                );
            }
        }
    }
}

/// The texels within the edges of a character's slot are the coverage of its
/// glyph, and nothing where the glyph has none.
pub proof fn lemma_slots_show_their_glyphs(
    glyphs: Seq<Vec<(u32, u32, u8)>>,
    n: int,
    glyph_w: u32,
    glyph_h: u32,
    at: int,
    gx: int,
    gy: int,
)
    requires
        0 <= n <= ATLAS_SLOTS,
        0 <= at < ATLAS_SLOTS,
        0 <= gx < glyph_w,
        0 <= gy < glyph_h,
    ensures
        with_glyphs(glyphs, n, glyph_w, glyph_h).len() == atlas_width(glyph_w) * atlas_height(
            glyph_h,
        ),
        with_glyphs(glyphs, n, glyph_w, glyph_h)[coverage_at(at, gx, gy, glyph_w, glyph_h)]
            == if at < n && at < glyphs.len() {
            match coverage_of(glyphs[at]@, glyphs[at]@.len() as int, gx, gy) {
                Some(value) => value,
                None => 0,
            }
        } else {
            0
        },
    decreases n,
{
    lemma_coverage_inside(at, gx, gy, glyph_w, glyph_h);
    if n > 0 {
        lemma_slots_show_their_glyphs(glyphs, n - 1, glyph_w, glyph_h, at, gx, gy);
        if n - 1 < glyphs.len() {
            lemma_glyphs_are_stored_in_their_slots(
                with_glyphs(glyphs, n - 1, glyph_w, glyph_h),
                n - 1,
                glyphs[n - 1]@,
                glyphs[n - 1]@.len() as int,
                glyph_w,
                glyph_h,
                at,
                gx,
                gy,
            );
        }
    }
}

impl GlyphAtlas {
    /// Whether an atlas for glyphs of the given size can be addressed.
    pub fn fits(glyph_w: u32, glyph_h: u32) -> (fits: bool)
        ensures
            fits == glyphs_fit(glyph_w, glyph_h),
    {
        if glyph_w > 0x200_0000 || glyph_h > 0x200_0000 {
            assert((16 * (glyph_w + 2)) * (6 * (glyph_h + 2)) > 0xffff_ffff) by (nonlinear_arith)
                requires
                    glyph_w > 0x200_0000 || glyph_h > 0x200_0000,
                    glyph_w >= 0,
                    glyph_h >= 0,
            ;
            return false;
        }
        assert((16 * (glyph_w + 2)) * (6 * (glyph_h + 2)) <= 0x4000_0000 * 0x4000_0000)
            by (nonlinear_arith)
            requires
                glyph_w <= 0x200_0000,
                glyph_h <= 0x200_0000,
        ;
        let texels: u64 = (16 * (glyph_w as u64 + 2)) * (6 * (glyph_h as u64 + 2));
        texels <= u32::MAX as u64
    }

    /// Lays out the atlas for glyphs of the given size.
    pub fn new(glyph_w: u32, glyph_h: u32) -> (atlas: GlyphAtlas)
        requires
            glyphs_fit(glyph_w, glyph_h),
        ensures
            atlas.atlas_width == atlas_width(glyph_w),
            atlas.atlas_height == atlas_height(glyph_h),
            atlas.glyph_width == glyph_w,
            atlas.glyph_height == glyph_h,
            atlas.uv_map@.len() == ATLAS_SLOTS,
            forall|slot: int|
                0 <= slot < ATLAS_SLOTS ==> {
                    let e = #[trigger] atlas.uv_map@[slot];
                    (e.0 as int, e.1 as int, e.2 as int, e.3 as int) == slot_edges(
                        slot,
                        glyph_w,
                        glyph_h,
                    )
                },
    {
        proof {
            lemma_sizes(glyph_w, glyph_h);
        }
        let mut uv_map: Vec<(u32, u32, u32, u32)> = Vec::new();
        let mut slot: u32 = 0;
        while slot < ATLAS_SLOTS
            invariant
                slot <= ATLAS_SLOTS,
                atlas_width(glyph_w) <= u32::MAX,
                atlas_height(glyph_h) <= u32::MAX,
                uv_map@.len() == slot,
                forall|k: int|
                    0 <= k < slot ==> {
                        let e = #[trigger] uv_map@[k];
                        (e.0 as int, e.1 as int, e.2 as int, e.3 as int) == slot_edges(
                            k,
                            glyph_w,
                            glyph_h,
                        )
                    },
            decreases ATLAS_SLOTS - slot,
        {
            proof {
                lemma_slot_inside(slot as int, glyph_w, glyph_h);
            }
            let x: u32 = (slot % ATLAS_COLS) * (glyph_w + ATLAS_PADDING);
            let y: u32 = (slot / ATLAS_COLS) * (glyph_h + ATLAS_PADDING);
            uv_map.push((x, y, x + glyph_w, y + glyph_h));
            slot += 1;
        }
        GlyphAtlas {
            atlas_width: ATLAS_COLS * (glyph_w + ATLAS_PADDING),
            atlas_height: ATLAS_ROWS * (glyph_h + ATLAS_PADDING),
            glyph_width: glyph_w,
            glyph_height: glyph_h,
            uv_map,
        }
    }

    /// Stores the coverage of a glyph, given as column, row and value, in the
    /// bitmap; what lies outside of the slot is dropped.
    pub fn rasterize_glyph(
        data: &mut Vec<u8>,
        slot: u32,
        coverage: &Vec<(u32, u32, u8)>,
        glyph_w: u32,
        glyph_h: u32,
    )
        requires
            glyphs_fit(glyph_w, glyph_h),
            slot < ATLAS_SLOTS,
            old(data)@.len() == atlas_width(glyph_w) * atlas_height(glyph_h),
        ensures
            final(data)@ == with_glyph(
                old(data)@,
                slot as int,
                coverage@,
                coverage@.len() as int,
                glyph_w,
                glyph_h,
            ),
            final(data)@.len() == old(data)@.len(),
    {
        proof {
            lemma_sizes(glyph_w, glyph_h);
            lemma_slot_inside(slot as int, glyph_w, glyph_h);
        }
        let x: u32 = (slot % ATLAS_COLS) * (glyph_w + ATLAS_PADDING);
        let y: u32 = (slot / ATLAS_COLS) * (glyph_h + ATLAS_PADDING);
        let width: u32 = ATLAS_COLS * (glyph_w + ATLAS_PADDING);
        let ghost start = data@;
        let mut i: usize = 0;
        while i < coverage.len()
            invariant
                i <= coverage@.len(),
                glyphs_fit(glyph_w, glyph_h),
                slot < ATLAS_SLOTS,
                x == slot_x(slot as int, glyph_w),
                y == slot_y(slot as int, glyph_h),
                width == atlas_width(glyph_w),
                start.len() == atlas_width(glyph_w) * atlas_height(glyph_h),
                data@.len() == start.len(),
                data@ == with_glyph(start, slot as int, coverage@, i as int, glyph_w, glyph_h),
            decreases coverage.len() - i,
        {
            let (gx, gy, value): (u32, u32, u8) = coverage[i];
            if gx < glyph_w && gy < glyph_h {
                proof {
                    lemma_sizes(glyph_w, glyph_h);
                    lemma_slot_inside(slot as int, glyph_w, glyph_h);
                    lemma_coverage_inside(slot as int, gx as int, gy as int, glyph_w, glyph_h);
                }
                let at: u32 = (y + gy) * width + x + gx;
                data.set(at as usize, value);
            }
            i += 1;
        }
    }

    /// Bakes the bitmap of the atlas from the coverage of the glyphs, one
    /// after the other; glyphs that are missing stay blank.
    pub fn bake(glyphs: &Vec<Vec<(u32, u32, u8)>>, glyph_w: u32, glyph_h: u32) -> (data: Vec<u8>)
        requires
            glyphs_fit(glyph_w, glyph_h),
        ensures
            data@ == with_glyphs(glyphs@, ATLAS_SLOTS as int, glyph_w, glyph_h),
            data@.len() == atlas_width(glyph_w) * atlas_height(glyph_h),
            forall|slot: int, gx: int, gy: int|
                0 <= slot < ATLAS_SLOTS && 0 <= gx < glyph_w && 0 <= gy < glyph_h
                    ==> data@[#[trigger] coverage_at(slot, gx, gy, glyph_w, glyph_h)] == if slot
                    < glyphs@.len() {
                    match coverage_of(glyphs@[slot]@, glyphs@[slot]@.len() as int, gx, gy) {
                        Some(value) => value,
                        None => 0,
                    }
                } else {
                    0
                },
    {
        proof {
            lemma_sizes(glyph_w, glyph_h);
        }
        let w: u32 = ATLAS_COLS * (glyph_w + ATLAS_PADDING);
        let h: u32 = ATLAS_ROWS * (glyph_h + ATLAS_PADDING);
        let mut data: Vec<u8> = vec![0u8; (w * h) as usize];
        assert(data@ =~= with_glyphs(glyphs@, 0, glyph_w, glyph_h));
        let mut slot: u32 = 0;
        while slot < ATLAS_SLOTS
            invariant
                slot <= ATLAS_SLOTS,
                glyphs_fit(glyph_w, glyph_h),
                data@.len() == atlas_width(glyph_w) * atlas_height(glyph_h),
                data@ == with_glyphs(glyphs@, slot as int, glyph_w, glyph_h),
            decreases ATLAS_SLOTS - slot,
        {
            if (slot as usize) < glyphs.len() {
                GlyphAtlas::rasterize_glyph(
                    &mut data,
                    slot,
                    &glyphs[slot as usize],
                    glyph_w,
                    glyph_h,
                );
            }
            slot += 1;
        }
        proof {
            assert forall|at: int, gx: int, gy: int|
                0 <= at < ATLAS_SLOTS && 0 <= gx < glyph_w && 0 <= gy < glyph_h implies data@[
                #[trigger] coverage_at(at, gx, gy, glyph_w, glyph_h)] == if at < glyphs@.len() {
                match coverage_of(glyphs@[at]@, glyphs@[at]@.len() as int, gx, gy) {
                    Some(value) => value,
                    None => 0,
                }
            } else {
                0
            } by {
                lemma_slots_show_their_glyphs(
                    glyphs@,
                    ATLAS_SLOTS as int,
                    glyph_w,
                    glyph_h,
                    at,
                    gx,
                    gy,
                );
            }
        }
        data
    }

    /// The edges of the slot of a character, in texels, if it has a slot.
    pub fn uv_for(&self, ch: char) -> (edges: Option<(u32, u32, u32, u32)>)
        ensures
            edges == char_edges(self.uv_map@, ch),
    {
        let cp: u32 = ch as u32;
        if cp < FIRST_ASCII {
            return None;
        }
        let slot: usize = (cp - FIRST_ASCII) as usize;
        if slot < self.uv_map.len() {
            Some(self.uv_map[slot])
        } else {
            None
        }
    }
}

/// One cell of the grid: its position in pixels and the part of the atlas
/// that it shows, an empty one for a character without a slot.
#[derive(Clone, Copy, Debug)]
pub struct GlyphQuad {
    pub px: u32,
    pub py: u32,
    pub edges: (u32, u32, u32, u32),
}

/// Whether `quad` draws the cell at (`row`, `col`).
pub open spec fn draws_cell(
    screen: vt100::Screen,
    uv_map: Seq<(u32, u32, u32, u32)>,
    cell_w: u32,
    cell_h: u32,
    row: u16,
    col: u16,
    quad: GlyphQuad,
) -> bool {
    let inside = row < screen_size(screen).0 && col < screen_size(screen).1;
    &&& quad.px == col * cell_w
    &&& quad.py == row * cell_h
    &&& quad.edges == if inside {
        match char_edges(uv_map, cell_char(painted_cell(screen, row, col))) {
            Some(edges) => edges,
            None => (0u32, 0u32, 0u32, 0u32),
        }
    } else {
        (0u32, 0u32, 0u32, 0u32)
    }
}

/// The quads that draw a grid of `rows` by `cols` cells, row by row.
pub fn build_instances(
    rows: u16,
    cols: u16,
    cell_w: u32,
    cell_h: u32,
    atlas: &GlyphAtlas,
    screen: &vt100::Screen,
) -> (quads: Vec<GlyphQuad>)
    requires
        grid_fits(rows, cols, cell_w, cell_h),
    ensures
        quads@.len() == rows * cols,
        forall|row: u16, col: u16|
            row < rows && col < cols ==> #[trigger] draws_cell(
                *screen,
                atlas.uv_map@,
                cell_w,
                cell_h,
                row,
                col,
                quads@[row * cols + col],
            ),
{
    let (prows, pcols): (u16, u16) = vt_size(screen);
    let mut quads: Vec<GlyphQuad> = Vec::new();
    let mut row: u16 = 0;
    assert(0 * cols == 0);
    while row < rows
        invariant
            row <= rows,
            grid_fits(rows, cols, cell_w, cell_h),
            (prows, pcols) == screen_size(*screen),
            quads@.len() == row * cols,
            forall|r: u16, c: u16|
                r < row && c < cols ==> #[trigger] draws_cell(
                    *screen,
                    atlas.uv_map@,
                    cell_w,
                    cell_h,
                    r,
                    c,
                    quads@[r * cols + c],
                ),
        decreases rows - row,
    {
        let mut col: u16 = 0;
        while col < cols
            invariant
                row < rows,
                col <= cols,
                grid_fits(rows, cols, cell_w, cell_h),
                (prows, pcols) == screen_size(*screen),
                quads@.len() == row * cols + col,
                forall|r: u16, c: u16|
                    c < cols && (r < row || (r == row && c < col)) ==> #[trigger] draws_cell(
                        *screen,
                        atlas.uv_map@,
                        cell_w,
                        cell_h,
                        r,
                        c,
                        quads@[r * cols + c],
                    ),
            decreases cols - col,
        {
            proof {
                assert(col * cell_w <= (cols - 1) * cell_w) by (nonlinear_arith)
                    requires
                        col <= cols - 1,
                        cell_w >= 0,
                ;
                assert(row * cell_h <= (rows - 1) * cell_h) by (nonlinear_arith)
                    requires
                        row <= rows - 1,
                        cell_h >= 0,
                ;
            }
            let edges: (u32, u32, u32, u32) = if row < prows && col < pcols {
                let ch: char = match read_painted_cell(screen, row, col) {
                    Some(c) => if c.contents.as_str().is_empty() {
                        ' '
                    } else {
                        c.contents.as_str().get_char(0)
                    },
                    None => ' ',
                };
                match atlas.uv_for(ch) {
                    Some(edges) => edges,
                    None => (0, 0, 0, 0),
                }
            } else {
                (0, 0, 0, 0)
            };
            let ghost before = quads@;
            quads.push(GlyphQuad { px: col as u32 * cell_w, py: row as u32 * cell_h, edges });
            assert forall|r: u16, c: u16|
                c < cols && (r < row || (r == row && c < col + 1)) implies #[trigger] draws_cell(
                *screen,
                atlas.uv_map@,
                cell_w,
                cell_h,
                r,
                c,
                quads@[r * cols + c],
            ) by {
                if !(r == row && c == col) {
                    assert(0 <= r * cols + c < row * cols + col) by (nonlinear_arith)
                        requires
                            c < cols,
                            r < row || (r == row && c < col),
                            0 <= r,
                            0 <= c,
                            0 <= col,
                    ;
                    assert(draws_cell(
                        *screen,
                        atlas.uv_map@,
                        cell_w,
                        cell_h,
                        r,
                        c,
                        before[r * cols + c],
                    ));
                }
            }
            col += 1;
        }
        assert((row + 1) * cols == row * cols + cols) by (nonlinear_arith);
        row += 1;
    }
    quads
}

/// The WebGL2 renderer of this client.
pub struct WebGL2Renderer {
    /// Width of a cell in pixels.
    pub cell_w: u32,
    /// Height of a cell in pixels.
    pub cell_h: u32,
    /// Rows of the grid; 0 stands for the screen's rows.
    pub rows: u16,
    /// Columns of the grid; 0 stands for the screen's columns.
    pub cols: u16,
    /// The glyph atlas.
    pub atlas: GlyphAtlas,
}

/// A frame of the WebGL2 renderer: the size of the viewport in pixels and the
/// quads to draw.
pub struct GlyphFrame {
    pub width: u32,
    pub height: u32,
    pub quads: Vec<GlyphQuad>,
}

impl WebGL2Renderer {
    /// Whether the size of the grid in pixels can be computed.
    pub open spec fn fits(self, screen: vt100::Screen) -> bool {
        grid_cols(self.cols, screen) * self.cell_w <= u32::MAX && grid_rows(self.rows, screen) * self.cell_h
            <= u32::MAX
    }

    /// Whether `frame` draws the whole grid.
    pub open spec fn draws(self, screen: vt100::Screen, frame: GlyphFrame) -> bool {
        let rows = grid_rows(self.rows, screen);
        let cols = grid_cols(self.cols, screen);
        &&& frame.width == cols * self.cell_w
        &&& frame.height == rows * self.cell_h
        &&& frame.quads@.len() == rows * cols
        &&& forall|row: u16, col: u16|
            row < rows && col < cols ==> #[trigger] draws_cell(
                screen,
                self.atlas.uv_map@,
                self.cell_w,
                self.cell_h,
                row,
                col,
                frame.quads@[row * cols + col],
            )
    }

    /// Works out the next frame.
    pub fn render(&self, screen: &vt100::Screen) -> (frame: GlyphFrame)
        requires
            self.fits(*screen),
        ensures
            self.draws(*screen, frame),
    {
        let rows: u16 = shown_rows(self.rows, screen);
        let cols: u16 = shown_cols(self.cols, screen);
        let (cell_w, cell_h): (u32, u32) = (self.cell_w, self.cell_h);
        proof {
            assert((cols - 1) * cell_w <= cols * cell_w) by (nonlinear_arith)
                requires
                    cell_w >= 0,
            ;
            assert((rows - 1) * cell_h <= rows * cell_h) by (nonlinear_arith)
                requires
                    cell_h >= 0,
            ;
        }
        GlyphFrame {
            width: cols as u32 * cell_w,
            height: rows as u32 * cell_h,
            quads: build_instances(rows, cols, cell_w, cell_h, &self.atlas, screen),
        }
    }

    /// Works out the next frame, or returns `None` when the size of the grid
    /// in pixels cannot be computed.
    pub fn try_render(&self, screen: &vt100::Screen) -> (frame: Option<GlyphFrame>)
        ensures
            match frame {
                Some(f) => self.fits(*screen) && self.draws(*screen, f),
                None => !self.fits(*screen),
            },
    {
        let width: u64 = extent(shown_cols(self.cols, screen), self.cell_w);
        let height: u64 = extent(shown_rows(self.rows, screen), self.cell_h);
        if width <= u32::MAX as u64 && height <= u32::MAX as u64 {
            Some(self.render(screen))
        } else {
            None
        }
    }
}

/// How far `n` cells of the given size reach.
fn extent(n: u16, size: u32) -> (pixels: u64)
    ensures
        pixels == n * size,
{
    assert(n * size <= 65535 * 0xffff_ffff) by (nonlinear_arith)
        requires
            n <= 65535,
            size <= 0xffff_ffff,
    ;
    n as u64 * size as u64
}

/// Every printable ASCII character has a slot of its own, and no other
/// character has one.
pub proof fn lemma_slots_are_the_printable_characters(
    uv_map: Seq<(u32, u32, u32, u32)>,
    ch: char,
)
    requires
        uv_map.len() == ATLAS_SLOTS,
    ensures
        char_edges(uv_map, ch) is Some <==> ' ' <= ch <= '~',
{
}

/// The slots stand in rows of 16, two texels apart, from the upper left corner
/// on, and each is as large as a glyph.
pub proof fn lemma_slots_stand_in_rows_of_16(slot: int, glyph_w: u32, glyph_h: u32)
    requires
        0 <= slot,
    ensures
        ({
            let at = slot_edges(slot, glyph_w, glyph_h);
            let next = slot_edges(slot + 1, glyph_w, glyph_h);
            let below = slot_edges(slot + 16, glyph_w, glyph_h);
            &&& slot == 0 ==> at.0 == 0 && at.1 == 0
            &&& at.2 - at.0 == glyph_w && at.3 - at.1 == glyph_h
            &&& slot % 16 != 15 ==> next.0 == at.2 + 2 && next.1 == at.1
            &&& below.0 == at.0 && below.1 == at.3 + 2
        }),
        atlas_width(glyph_w) == 16 * (glyph_w + 2),
        atlas_height(glyph_h) == 6 * (glyph_h + 2),
{
    let (w, h) = (glyph_w + 2, glyph_h + 2);
    let (row, col) = (slot / 16, slot % 16);
    assert((row + 1) * h == row * h + h) by (nonlinear_arith);
    assert((col + 1) * w == col * w + w) by (nonlinear_arith);
    assert((slot + 16) / 16 == row + 1 && (slot + 16) % 16 == col);
    if col != 15 {
        assert((slot + 1) / 16 == row && (slot + 1) % 16 == col + 1);
    }
    if slot == 0 {
        assert(0 * w == 0 && 0 * h == 0) by (nonlinear_arith);
    }
}

/// The coverage of a glyph is stored between the edges of its slot, row by row
/// of the atlas.
pub proof fn lemma_coverage_lies_between_the_edges(
    slot: int,
    gx: int,
    gy: int,
    glyph_w: u32,
    glyph_h: u32,
)
    requires
        0 <= slot < ATLAS_SLOTS,
        0 <= gx < glyph_w,
        0 <= gy < glyph_h,
    ensures
        ({
            let edges = slot_edges(slot, glyph_w, glyph_h);
            let p = coverage_at(slot, gx, gy, glyph_w, glyph_h);
            &&& p % atlas_width(glyph_w) == edges.0 + gx < edges.2
            &&& p / atlas_width(glyph_w) == edges.1 + gy < edges.3
        }),
{
    lemma_slot_inside(slot, glyph_w, glyph_h);
    lemma_fundamental_div_mod_converse(
        coverage_at(slot, gx, gy, glyph_w, glyph_h),
        atlas_width(glyph_w),
        slot_y(slot, glyph_h) + gy,
        slot_x(slot, glyph_w) + gx,
    );
}

/// Where a glyph has several values for one place, the last one counts.
pub proof fn lemma_the_last_coverage_counts(coverage: Seq<(u32, u32, u8)>, n: int, gx: u32, gy: u32, value: u8)
    requires
        0 <= n < coverage.len(),
        coverage[n] == (gx, gy, value),
    ensures
        coverage_of(coverage, n + 1, gx as int, gy as int) == Some(value),
        forall|x: int, y: int|
            x != gx || y != gy ==> #[trigger] coverage_of(coverage, n + 1, x, y) == coverage_of(
                coverage,
                n,
                x,
                y,
            ),
{
}

/// Printable characters use the slots in their order, the space the first.
pub proof fn lemma_characters_use_the_slots_in_order(uv_map: Seq<(u32, u32, u32, u32)>, k: int)
    requires
        uv_map.len() == 95,
        0 <= k < 95,
    ensures
        char_edges(uv_map, (0x20 + k) as char) == Some(uv_map[k]),
{
}

/// The quads form a grid: the first one is in the upper left corner, the next
/// one in a row or a column starts where the one before it ends, and what is
/// drawn is determined by the screen.
pub proof fn lemma_quads_lie_side_by_side(
    screen: vt100::Screen,
    uv_map: Seq<(u32, u32, u32, u32)>,
    cell_w: u32,
    cell_h: u32,
    row: u16,
    col: u16,
    quad: GlyphQuad,
    right: GlyphQuad,
    below: GlyphQuad,
)
    requires
        row < u16::MAX,
        col < u16::MAX,
        draws_cell(screen, uv_map, cell_w, cell_h, row, col, quad),
        draws_cell(screen, uv_map, cell_w, cell_h, row, (col + 1) as u16, right),
        draws_cell(screen, uv_map, cell_w, cell_h, (row + 1) as u16, col, below),
    ensures
        right.px == quad.px + cell_w && right.py == quad.py,
        below.py == quad.py + cell_h && below.px == quad.px,
        row == 0 ==> quad.py == 0,
        col == 0 ==> quad.px == 0,
{
    assert((col + 1) * cell_w == col * cell_w + cell_w) by (nonlinear_arith);
    assert((row + 1) * cell_h == row * cell_h + cell_h) by (nonlinear_arith);
}

/// A cell of the screen shows the glyph of the first character of its text, or
/// of a space where it has none; where that has no slot, and outside of the
/// screen, nothing is shown.
pub proof fn lemma_quads_show_the_first_character(
    screen: vt100::Screen,
    uv_map: Seq<(u32, u32, u32, u32)>,
    cell_w: u32,
    cell_h: u32,
    row: u16,
    col: u16,
    quad: GlyphQuad,
)
    requires
        draws_cell(screen, uv_map, cell_w, cell_h, row, col, quad),
        uv_map.len() == 95,
    ensures
        ({
            let inside = row < screen_size(screen).0 && col < screen_size(screen).1;
            let ch = match painted_cell(screen, row, col) {
                Some(c) if c.contents.len() > 0 => c.contents[0],
                _ => ' ',
            };
            quad.edges == if inside && ' ' <= ch <= '~' {
                uv_map[ch as int - 0x20]
            } else {
                (0, 0, 0, 0)
            }
        }),
{
}

/// The viewport is as large as the grid: its last quad ends where it does.
pub proof fn lemma_the_viewport_holds_the_grid(
    renderer: WebGL2Renderer,
    screen: vt100::Screen,
    frame: GlyphFrame,
)
    requires
        renderer.draws(screen, frame),
        grid_rows(renderer.rows, screen) > 0,
        grid_cols(renderer.cols, screen) > 0,
    ensures
        frame.quads@.len() > 0,
        frame.quads@.last().px + renderer.cell_w == frame.width,
        frame.quads@.last().py + renderer.cell_h == frame.height,
{
    let rows = grid_rows(renderer.rows, screen);
    let cols = grid_cols(renderer.cols, screen);
    let (row, col) = ((rows - 1) as u16, (cols - 1) as u16);
    assert(row * cols + col == rows * cols - 1) by (nonlinear_arith)
        requires
            row == rows - 1,
            col == cols - 1,
    ;
    assert(rows * cols > 0) by (nonlinear_arith)
        requires
            rows > 0,
            cols > 0,
    ;
    assert(draws_cell(
        screen,
        renderer.atlas.uv_map@,
        renderer.cell_w,
        renderer.cell_h,
        row,
        col,
        frame.quads@[row * cols + col],
    ));
    assert(col * renderer.cell_w + renderer.cell_w == cols * renderer.cell_w) by (nonlinear_arith)
        requires
            col == cols - 1,
    ;
    assert(row * renderer.cell_h + renderer.cell_h == rows * renderer.cell_h) by (nonlinear_arith)
        requires
            row == rows - 1,
    ;
}

/// An atlas can be laid out for every size of glyph at which its texels can be
/// counted.
pub proof fn lemma_glyph_sizes_that_fit(glyph_w: u32, glyph_h: u32)
    ensures
        glyphs_fit(glyph_w, glyph_h) <==> (16 * (glyph_w + 2)) * (6 * (glyph_h + 2)) <= 0xffff_ffff,
{
}

/// A frame can be worked out exactly when its size in pixels can be.
pub proof fn lemma_frames_that_fit(renderer: WebGL2Renderer, screen: vt100::Screen)
    ensures
        renderer.fits(screen) <==> grid_rows(renderer.rows, screen) * renderer.cell_h <= 0xffff_ffff
            && grid_cols(renderer.cols, screen) * renderer.cell_w <= 0xffff_ffff,
{
}

} // verus!
