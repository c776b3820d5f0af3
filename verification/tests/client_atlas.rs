//! The glyph atlas and the WebGL2 instances of the client.

use krust::client::atlas::{atlas_slot, BrailleDots, GlyphAtlas};
use krust::client::color::{DEFAULT_BG, DEFAULT_FG};
use krust::client::graphics::Graphic;
use krust::client::instances::{instance_attributes, CellPaint, WebGL2Renderer, INSTANCE_STRIDE};
use vt100::Parser;

fn dots(glyph_w: u32, glyph_h: u32) -> BrailleDots {
    let x = |f: f32| (glyph_w as f32 * f).round() as u32;
    let y = |f: f32| (glyph_h as f32 * f).round() as u32;
    BrailleDots {
        xs: [x(0.3125), x(0.6875)],
        ys: [y(0.17), y(0.42), y(0.67), y(0.92)],
        reach: ((glyph_w as f32 * 0.19).floor() as u32).max(1),
    }
}

fn scratch_atlas() -> GlyphAtlas {
    GlyphAtlas {
        atlas_width: 320,
        atlas_height: 1000,
        glyph_width: 8,
        glyph_height: 18,
        uv_map: (0..1584).map(|_| (80, 250, 240, 750)).collect(),
    }
}

#[test]
fn uv_for_resolves_every_atlas_range() {
    let atlas = scratch_atlas();
    for (cp, _note) in [
        (0x41u32, "ASCII"),
        (0x2888u32, "braille"),
        (0x25A3u32, "geo"),
        (0x25AEu32, "geo/block"),
        (0x21BBu32, "arrows"),
        (0x22EFu32, "mathops"),
        (0x2731u32, "dingbats"),
        (0x2736u32, "dingbats"),
        (0x00B7u32, "latin1"),
        (0x2026u32, "punct"),
        (0x20ACu32, "currency"),
        (0x2699u32, "misc"),
    ] {
        let ch = char::from_u32(cp).unwrap();
        let edges = atlas
            .uv_for(ch)
            .unwrap_or_else(|| panic!("uv_for(U+{:04X}) = None", cp));
        let uv = (
            edges.0 as f32 / atlas.atlas_width as f32,
            edges.1 as f32 / atlas.atlas_height as f32,
            edges.2 as f32 / atlas.atlas_width as f32,
            edges.3 as f32 / atlas.atlas_height as f32,
        );
        assert_eq!(uv, (0.25, 0.25, 0.75, 0.75));
        assert!(uv.0 < uv.2 && uv.1 < uv.3, "U+{:04X} got degenerate UV {:?}", cp, uv);
    }
    // Out-of-range codepoints stay None (defaults to invisible).
    assert!(atlas.uv_for('\u{1F600}').is_none());
}

#[test]
fn slots_follow_the_ranges() {
    assert_eq!(atlas_slot(0), Some(0));
    assert_eq!(atlas_slot(0x7f), Some(127));
    assert_eq!(atlas_slot(0x80), None);
    assert_eq!(atlas_slot(0x2190), Some(128));
    assert_eq!(atlas_slot(0x21ff), Some(239));
    assert_eq!(atlas_slot(0x2800), Some(816));
    assert_eq!(atlas_slot(0x28ff), Some(1071));
    assert_eq!(atlas_slot(0xa0), Some(1072));
    assert_eq!(atlas_slot(0x26ff), Some(1583));
    assert_eq!(atlas_slot(0x2500), None);
    let mut seen = vec![false; 1584];
    for cp in 0..0x3000u32 {
        if let Some(slot) = atlas_slot(cp) {
            assert!(!seen[slot as usize]);
            seen[slot as usize] = true;
        }
    }
    assert!(seen.iter().all(|&s| s));
}

#[test]
fn rasterize_atlas_is_a_safe_noop_without_a_dom() {
    let mut data = vec![0u8; 8 * 18];
    GlyphAtlas::rasterize_atlas(&mut data, 8, 18, &[]);
    assert!(data.iter().all(|&b| b == 0), "atlas mutated without a DOM");
}

#[test]
fn braille_rasterizes_into_the_slot() {
    let (glyph_w, glyph_h): (u32, u32) = (8, 18);
    let mut any_ink = false;
    for cp in 0x2800u32..=0x28FF {
        let mut slot = vec![0u8; (glyph_w * glyph_h) as usize];
        let dots = dots(glyph_w, glyph_h);
        GlyphAtlas::rasterize_braille(cp, glyph_w, glyph_h, &mut slot, 0, 0, glyph_w, &dots);
        if slot.iter().any(|&b| b > 20) {
            any_ink = true;
            break;
        }
    }
    assert!(any_ink, "no braille codepoint rasterizes any ink in an 8x18 slot");
}

#[test]
fn opencode_spinner_frames_rasterize_distinctly() {
    let frames = ['\u{280B}', '\u{2819}', '\u{2839}', '\u{2838}', '\u{283C}', '\u{2834}', '\u{2826}', '\u{2827}', '\u{2807}', '\u{280F}'];
    for (glyph_w, glyph_h) in [(8u32, 18u32), (16, 36)] {
        let mut slots: Vec<Vec<u8>> = Vec::new();
        for ch in frames {
            let mut slot = vec![0u8; (glyph_w * glyph_h) as usize];
            let dots = dots(glyph_w, glyph_h);
            GlyphAtlas::rasterize_braille(ch as u32, glyph_w, glyph_h, &mut slot, 0, 0, glyph_w, &dots);
            slots.push(slot);
        }
        for (i, a) in slots.iter().enumerate() {
            let ink_a = a.iter().filter(|&&v| v > 20).count();
            assert!(ink_a > 0, "frame {:?} (U+{:04X}) rasterizes blank at {}x{}", frames[i], frames[i] as u32, glyph_w, glyph_h);
            for (j, b) in slots.iter().enumerate() {
                if i < j {
                    assert_ne!(
                        a, b,
                        "frames U+{:04X} and U+{:04X} rasterize identically at {}x{}",
                        frames[i] as u32, frames[j] as u32, glyph_w, glyph_h
                    );
                }
            }
        }
    }
}

#[test]
fn a_single_braille_dot_is_a_square() {
    let dots = BrailleDots { xs: [3, 6], ys: [3, 8, 12, 17], reach: 1 };
    let mut data = vec![0u8; 20 * 20];
    GlyphAtlas::rasterize_braille(0x2808, 8, 18, &mut data, 10, 1, 20, &dots);
    let ink: Vec<(usize, usize)> = (0..400).filter(|p| data[*p] == 255).map(|p| (p % 20, p / 20)).collect();
    assert_eq!(
        ink,
        vec![(15, 3), (16, 3), (17, 3), (15, 4), (16, 4), (17, 4), (15, 5), (16, 5), (17, 5)]
    );
    let mut data = vec![0u8; 8 * 18];
    GlyphAtlas::rasterize_braille(0x2880, 8, 18, &mut data, 0, 0, 8, &dots);
    let rows: Vec<usize> = (0..144).filter(|p| data[*p] == 255).map(|p| p / 8).collect();
    assert_eq!(rows, vec![16, 16, 16, 17, 17, 17]);
}

#[test]
fn layout_places_the_slots() {
    let atlas = GlyphAtlas::new(8, 18);
    assert_eq!((atlas.atlas_width, atlas.atlas_height), (320, 1000));
    assert_eq!(atlas.uv_map.len(), 1584);
    assert_eq!(atlas.uv_for('\0').unwrap(), (0, 18, 8, 0));
    assert_eq!(atlas.uv_for('A').unwrap(), (10, 58, 18, 40));
    assert_eq!(atlas.solid_texel(), (319, 999));
}

#[test]
fn font_pass_skips_control_codes_and_braille() {
    let draws = GlyphAtlas::font_pass(8, 18);
    assert_eq!(draws.len(), 1584 - 33 - 256);
    assert!(draws[0].cp == 0x20 && draws[0].x == 0 && draws[0].y == 36);
    let a = draws.iter().find(|d| d.cp == 'A' as u32).unwrap();
    assert_eq!((a.x, a.y), (16, 72));
    assert!(draws.iter().all(|d| d.cp != 0x7f && !(0x2800..=0x28ff).contains(&d.cp)));
}

#[test]
fn baking_combines_font_braille_and_the_solid_texel() {
    let (w, h) = (2u32, 3u32);
    let dots = BrailleDots { xs: [0, 1], ys: [0, 1, 2, 3], reach: 0 };
    let atlas = GlyphAtlas::new(w, h);
    let (aw, ah) = (atlas.atlas_width as usize, atlas.atlas_height as usize);
    let blank = GlyphAtlas::bake(w, h, &[], &dots);
    assert_eq!(blank.len(), aw * ah);
    assert_eq!(blank[aw * ah - 1], 255);
    // Slot 817 is U+2801: its only dot is in the upper left corner.
    let (x, y) = ((817 % 32) * 4, (817 / 32) * 5);
    assert_eq!(blank[y * aw + x], 255);
    assert_eq!(blank[y * aw + x + 1], 0);
    let cw = 32 * 4usize;
    let mut pixels = vec![0u8; cw * 50 * 6 * 4];
    // The lower right texel of 'A' (slot 65) and one pixel beside its place.
    let (px, py) = ((65 % 32) * 4, (65 / 32) * 6);
    pixels[((py + 2) * cw + px + 1) * 4 + 3] = 77;
    pixels[((py + 2) * cw + px + 2) * 4 + 3] = 88;
    let data = GlyphAtlas::bake(w, h, &pixels, &dots);
    let (sx, sy) = ((65 % 32) * 4, (65 / 32) * 5);
    assert_eq!(data[(sy + 2) * aw + sx + 1], 77);
    assert_eq!(data[(sy + 2) * aw + sx + 2], 0);
    assert_eq!(data.iter().filter(|&&b| b == 88).count(), 0);
    assert_eq!(data[y * aw + x], 255);
}

#[test]
fn instances_cover_the_grid_row_by_row() {
    let mut parser = Parser::new(2, 3, 0);
    parser.process("A\u{2588}\u{1F600}".as_bytes());
    let renderer = WebGL2Renderer { cell_w: 8, cell_h: 18, rows: 0, cols: 0, atlas: GlyphAtlas::new(8, 18) };
    let cells = renderer.render(parser.screen(), DEFAULT_FG, DEFAULT_BG, &[(0, 0), (1, 1)], (0, 0));
    assert_eq!(cells.len(), 6);
    assert_eq!((cells[0].px, cells[0].py), (0, 0));
    assert_eq!((cells[5].px, cells[5].py), (16, 18));
    // The cursor masks the selection and swaps the colors.
    assert!(cells[0].cursor && !cells[0].selected);
    assert_eq!((cells[0].fg, cells[0].bg), (DEFAULT_BG, DEFAULT_FG));
    assert!(matches!(cells[0].paint, CellPaint::Glyph((10, 58, 18, 40))));
    assert!(matches!(cells[1].paint, CellPaint::Shape(Graphic::Block(0, 0, 4, 4, 4))));
    assert_eq!((cells[1].fg, cells[1].bg), (DEFAULT_FG, DEFAULT_BG));
    // A selected blank cell: black on the foreground color, drawn as a space.
    assert!(cells[4].selected && !cells[4].cursor);
    assert_eq!((cells[4].fg, cells[4].bg), (0, DEFAULT_FG));
    assert!(matches!(cells[4].paint, CellPaint::Glyph((0, 38, 8, 20))));
}

#[test]
fn characters_without_a_slot_are_invisible() {
    let mut parser = Parser::new(1, 4, 0);
    parser.process("\u{1F600}".as_bytes());
    let renderer = WebGL2Renderer { cell_w: 8, cell_h: 18, rows: 2, cols: 1, atlas: GlyphAtlas::new(8, 18) };
    let cells = renderer.render(parser.screen(), DEFAULT_FG, DEFAULT_BG, &[], (u16::MAX, u16::MAX));
    assert_eq!(cells.len(), 2);
    assert!(matches!(cells[0].paint, CellPaint::Glyph((0, 0, 0, 0))));
    // Row 1 lies outside of the screen.
    assert!(matches!(cells[1].paint, CellPaint::Glyph((0, 38, 8, 20))));
}

#[test]
fn attributes_fill_an_instance() {
    let attributes = instance_attributes();
    let offsets: Vec<u32> = attributes.iter().map(|a| a.byte_offset).collect();
    assert_eq!(offsets, vec![0, 8, 16, 32, 44, 56, 60]);
    assert_eq!(attributes.iter().map(|a| a.floats).sum::<u32>() * 4, INSTANCE_STRIDE);
}

#[test]
fn grids_and_atlases_that_are_too_large_are_told() {
    assert!(GlyphAtlas::fits(8, 18) && GlyphAtlas::fits(1, 1));
    assert!(!GlyphAtlas::fits(0, 18) && !GlyphAtlas::fits(8, 0));
    // 25600 bytes of canvas for every texel of a glyph.
    assert!(GlyphAtlas::fits(1, 167772) && !GlyphAtlas::fits(1, 167773));
    assert!(!GlyphAtlas::fits(u32::MAX, 1) && !GlyphAtlas::fits(u32::MAX, u32::MAX));
    assert!(dots(8, 18).fit(8, 18) && !dots(8, 18).fit(2, 18) && !dots(8, 18).fit(8, 10));
    let parser = Parser::new(2, 3, 0);
    let mut renderer = WebGL2Renderer { cell_w: 8, cell_h: 18, rows: 0, cols: 0, atlas: GlyphAtlas::new(8, 18) };
    let cells = renderer.try_render(parser.screen(), DEFAULT_FG, DEFAULT_BG, &[], (0, 0)).unwrap();
    assert_eq!(cells.len(), 6);
    renderer.cell_w = u32::MAX / 2 + 1;
    assert!(renderer.try_render(parser.screen(), DEFAULT_FG, DEFAULT_BG, &[], (0, 0)).is_none());
}
