//! The client that is bound by `wasm-bindgen`.

use krust::client::paint::DrawOp;
use krust::client::state::{DEFAULT_COLS, DEFAULT_ROWS, SCROLLBACK_LEN};
use krust::wasm_client::atlas::{GlyphAtlas, WebGL2Renderer};
use krust::wasm_client::exports;
use krust::wasm_client::terminal::{extract_selection, SelectionMode, TerminalState};
use vt100::Parser;

#[test]
fn lib_extract_selection_reads_cells_in_order() {
    let mut parser = Parser::new(DEFAULT_ROWS, DEFAULT_COLS, SCROLLBACK_LEN);
    parser.process(b"hello\nworld");
    let out = extract_selection(parser.screen(), (0, 0), (1, 10));
    assert!(out.contains("hello"));
    assert!(out.contains("world"));
}

#[test]
fn lib_extract_selection_backwards_equals_forward() {
    let mut parser = Parser::new(DEFAULT_ROWS, DEFAULT_COLS, SCROLLBACK_LEN);
    parser.process(b"abcdef");
    let screen = parser.screen();
    let forward = extract_selection(&screen, (0, 1), (0, 4));
    let backward = extract_selection(&screen, (0, 4), (0, 1));
    assert_eq!(forward, backward);
    assert_eq!(forward, "bcd");
}

#[test]
fn extract_selection_degenerate_is_empty() {
    let mut parser = Parser::new(DEFAULT_ROWS, DEFAULT_COLS, SCROLLBACK_LEN);
    parser.process(b"abcdef");
    let screen = parser.screen();
    assert_eq!(extract_selection(&screen, (0, 2), (0, 2)), "");
}

fn state(rows: u16, cols: u16) -> Option<TerminalState> {
    let mut state = None;
    exports::init(&mut state, "c", true, true, true, None, None).unwrap();
    exports::handle_resize(&mut state, cols, rows).unwrap();
    state
}

#[test]
fn init_happens_once() {
    let mut state = None;
    assert_eq!(
        exports::init(&mut state, "c", true, false, true, None, None).unwrap_err(),
        "terminal init failed: canvas '#c' not found"
    );
    assert_eq!(
        exports::init(&mut state, "c", true, true, false, None, None).unwrap_err(),
        "terminal init failed: 2D context unavailable"
    );
    exports::init(&mut state, "c", true, true, true, Some(5), Some(6)).unwrap();
    assert_eq!(
        exports::init(&mut state, "c", true, true, true, None, None).unwrap_err(),
        "terminal already initialized"
    );
    let s = state.unwrap();
    assert_eq!(s.size(), (5, 6));
    assert_eq!(s.canvas_id(), "c");
    assert!(s.is_webgl2_available() && !s.is_fallback_mode());
    let flat = TerminalState::new("c", false, true, true, None, None).unwrap();
    assert!(!flat.is_webgl2_available() && flat.is_fallback_mode());
}

#[test]
fn operations_without_a_terminal_fail() {
    let mut none: Option<TerminalState> = None;
    assert_eq!(exports::process_bytes(&mut none, b"x").err().unwrap(), "init() not called");
    assert_eq!(exports::query_replies(&none, b"x").unwrap_err(), "init() not called");
    assert_eq!(exports::repaint(&none).err().unwrap(), "init() not called");
    assert_eq!(exports::handle_resize(&mut none, 1, 1).unwrap_err(), "init() not called");
    assert!(!exports::is_webgl2_available(&none));
    assert!(!exports::is_fallback_mode(&none) && !exports::check_fallback(&none));
    let flat = TerminalState::new("c", false, true, true, None, None).ok();
    assert!(exports::is_fallback_mode(&flat) && exports::check_fallback(&flat));
    assert_eq!(exports::selection_mode(&none), "None");
    assert_eq!(exports::selected_text(&none), "");
    exports::set_selection(&mut none, 0, 0, 1, 1);
    assert!(exports::clear_selection(&mut none).is_none());
}

#[test]
fn frames_are_painted_in_passes() {
    let mut state = state(2, 4);
    exports::set_selection(&mut state, 0, 1, 0, 1);
    let (summary, ops) = exports::process_bytes(&mut state, b"\x1b[31;44mab\x1b[0m").unwrap();
    assert_eq!((summary.byte_count, summary.rows, summary.cols), (14, 2, 4));
    assert!(matches!(ops[0], DrawOp::Clear));
    assert!(matches!(ops[1], DrawOp::Baseline));
    assert!(matches!(ops[2], DrawOp::Font { bold: false }));
    assert!(matches!(ops[3], DrawOp::Fill { row: 0, col: 0, color: 0x0000EE }));
    assert!(matches!(ops[4], DrawOp::Highlight { row: 0, col: 1, color: 0xCD0000 }));
    assert!(matches!(&ops[5], DrawOp::Text { col: 0, color: 0xCD0000, text, .. } if text == "a"));
    assert!(matches!(&ops[6], DrawOp::Text { col: 1, color: 0x000000, text, .. } if text == "b"));
    assert!(matches!(ops[7], DrawOp::Fill { row: 0, col: 2, color: 0xf0f0f0 }));
    assert_eq!(ops.len(), 8);
    let again = exports::repaint(&state).unwrap();
    assert_eq!(again.len(), 8);
}

#[test]
fn highlight_is_a_rectangle_and_text_flows() {
    let mut state = state(3, 6);
    exports::process_bytes(&mut state, b"abcdef\r\nghijkl\r\nmn").unwrap();
    exports::set_selection(&mut state, 1, 1, 0, 3);
    assert_eq!(exports::selection_mode(&state), "Linear");
    let s = state.as_ref().unwrap();
    assert!(s.selected(0, 1) && s.selected(1, 3) && s.selected(0, 2));
    assert!(!s.selected(0, 4) && !s.selected(1, 0) && !s.selected(2, 2));
    assert_eq!(exports::selected_text(&state), "def\ng");
    assert_eq!(exports::try_selected_text(&state), Some("def\ng".to_string()));
    exports::set_selection(&mut state, 0, 100, 1, 0);
    assert_eq!(exports::try_selected_text(&state), None);
    assert!(exports::clear_selection(&mut state).is_some());
    assert_eq!(exports::selected_text(&state), "");
    assert_eq!(exports::try_selected_text(&state), Some(String::new()));
    assert_eq!(exports::try_selected_text(&None), Some(String::new()));
    assert_eq!(SelectionMode::Idle.to_string(), "None");
}

#[test]
fn selection_end_needs_a_start() {
    let mut s = state(3, 6).unwrap();
    s.handle_selection_update(1, 1);
    assert_eq!(s.selection_end, None);
    s.handle_selection_start(0, 0);
    assert_eq!(s.selection_end, None);
    s.handle_selection_update(1, 1);
    s.handle_selection_update(2, 2);
    assert_eq!(s.selection_end, Some((2, 2)));
}

#[test]
fn replies_and_keys_are_shared_with_the_other_client() {
    let mut state = state(3, 6);
    exports::process_bytes(&mut state, b"ab").unwrap();
    assert_eq!(exports::query_replies(&state, b"\x1b[6n").unwrap(), b"\x1b[1;3R");
    assert_eq!(exports::key_to_bytes("F1", false, false, false, false), b"\x1b[11~");
    assert_eq!(exports::handle_resize(&mut state, 0, 9).unwrap(), (9, 2));
}

#[test]
fn ascii_atlas_layout() {
    let atlas = GlyphAtlas::new(8, 18);
    assert_eq!((atlas.atlas_width, atlas.atlas_height), (160, 120));
    assert_eq!(atlas.uv_map.len(), 95);
    assert_eq!(atlas.uv_for(' '), Some((0, 0, 8, 18)));
    assert_eq!(atlas.uv_for('A'), Some((10, 40, 18, 58)));
    assert_eq!(atlas.uv_for('~'), Some((140, 100, 148, 118)));
    assert_eq!(atlas.uv_for('\u{1f}'), None);
    assert_eq!(atlas.uv_for('\u{7f}'), None);
}

#[test]
fn glyph_coverage_is_stored_inside_of_the_slot() {
    let mut data = vec![0u8; 4 * 16 * 5 * 6];
    // 'A' is slot 33: column 1, row 2 of a 2 by 3 grid with padding.
    GlyphAtlas::rasterize_glyph(&mut data, 33, &vec![(1, 2, 9), (2, 0, 7), (0, 3, 8)], 2, 3);
    assert_eq!(data[(2 * 5 + 2) * 64 + 4 + 1], 9);
    assert_eq!(data.iter().filter(|&&b| b != 0).count(), 1);
    let mut glyphs = vec![Vec::new(); 33];
    glyphs.push(vec![(1, 2, 9)]);
    assert_eq!(GlyphAtlas::bake(&glyphs, 2, 3), data);
}

#[test]
fn quads_show_the_screen() {
    let mut parser = Parser::new(1, 2, 0);
    parser.process("A\u{e9}".as_bytes());
    let renderer = WebGL2Renderer { cell_w: 8, cell_h: 18, rows: 2, cols: 0, atlas: GlyphAtlas::new(8, 18) };
    let frame = renderer.render(parser.screen());
    assert_eq!((frame.width, frame.height), (16, 36));
    assert_eq!(frame.quads.len(), 4);
    assert_eq!(frame.quads[0].edges, (10, 40, 18, 58));
    assert_eq!(frame.quads[1].edges, (0, 0, 0, 0));
    assert_eq!((frame.quads[3].px, frame.quads[3].py), (8, 18));
    assert_eq!(frame.quads[2].edges, (0, 0, 0, 0));
}

#[test]
fn grids_and_atlases_of_any_size_are_judged() {
    assert!(GlyphAtlas::fits(8, 18) && GlyphAtlas::fits(0, 0));
    assert!(!GlyphAtlas::fits(u32::MAX, 0) && !GlyphAtlas::fits(10_000, 10_000));
    let parser = Parser::new(1, 2, 0);
    let mut renderer = WebGL2Renderer { cell_w: 8, cell_h: 18, rows: 2, cols: 0, atlas: GlyphAtlas::new(8, 18) };
    assert_eq!(renderer.try_render(parser.screen()).unwrap().width, 16);
    renderer.cell_w = u32::MAX / 2 + 1;
    assert!(renderer.try_render(parser.screen()).is_none());
}

#[test]
fn output_is_taken_at_every_size() {
    let mut narrow = state(4, 20);
    exports::process_bytes(&mut narrow, "ab\u{4f60}".as_bytes()).unwrap();
    exports::handle_resize(&mut narrow, 3, 4).unwrap();
    exports::process_bytes(&mut narrow, b"\x1b[1;3Hx").unwrap();
    let screen = narrow.as_ref().unwrap().screen();
    assert_eq!(screen.contents_between(0, 0, 0, 3), "abx");
    let mut flat = state(1, 2);
    let (summary, ops) = exports::process_bytes(&mut flat, "abcdef\u{17d8}".as_bytes()).unwrap();
    assert_eq!((summary.rows, summary.cols), (1, 2));
    assert!(ops.iter().all(|op| !matches!(op, DrawOp::Text { row, col, .. } if *row > 0 || *col > 1)));
}

#[test]
fn a_slot_shows_its_glyph() {
    let glyphs: Vec<Vec<(u32, u32, u8)>> = (0..95).map(|i| vec![(i % 2, i % 3, i as u8 + 1)]).collect();
    let data = GlyphAtlas::bake(&glyphs, 2, 3);
    let atlas = GlyphAtlas::new(2, 3);
    for i in 0..95u32 {
        let (x0, y0, x1, y1) = atlas.uv_for(char::from_u32(32 + i).unwrap()).unwrap();
        for y in y0..y1 {
            for x in x0..x1 {
                let inked = (x - x0, y - y0) == (i % 2, i % 3);
                let expected = if inked { i as u8 + 1 } else { 0 };
                assert_eq!(data[(y * atlas.atlas_width + x) as usize], expected);
            }
        }
    }
}
