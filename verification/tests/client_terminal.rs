//! The client's terminal state: processing, scrolling, painting and the
//! operations of the page.

use krust::client::exports;
use krust::client::measure::{ink_height, rasterized_glyph_height_max, SCRATCH_BYTES};
use krust::client::paint::{all_cells, DrawOp};
use krust::client::selection::SelectionMode;
use krust::client::state::{Frame, Renderer, TerminalState};

fn terminal(webgl2: bool, rows: u16, cols: u16) -> TerminalState {
    let mut s = TerminalState::new("canvas", true, webgl2, true, Some(rows), Some(cols)).unwrap();
    s.resize_screen(rows, cols);
    s
}

fn lines(n: usize) -> Vec<u8> {
    let mut out = Vec::new();
    for i in 0..n {
        out.extend_from_slice(format!("line {}\r\n", i).as_bytes());
    }
    out
}

fn ops(frame: Frame) -> Vec<DrawOp> {
    match frame {
        Frame::Canvas { ops } => ops,
        Frame::Gpu { .. } => panic!("expected canvas operations"),
    }
}

/// The cells that are cleared to the default background, in order.
fn painted(ops: &[DrawOp]) -> Vec<(u16, u16)> {
    let mut cells = Vec::new();
    for op in ops {
        if let DrawOp::Fill { row, col, color: 0x2b2b2b } = op {
            cells.push((*row, *col));
        }
    }
    cells
}

fn texts(ops: &[DrawOp]) -> Vec<(u16, u16, u32, String)> {
    let mut out = Vec::new();
    for op in ops {
        if let DrawOp::Text { row, col, color, text } = op {
            out.push((*row, *col, *color, text.clone()));
        }
    }
    out
}

#[test]
fn new_terminal_needs_a_canvas_and_a_context() {
    let missing = TerminalState::new("term", false, true, true, None, None);
    assert_eq!(missing.err().unwrap(), "canvas '#term' not found");
    let blind = TerminalState::new("term", true, false, false, None, None);
    assert_eq!(
        blind.err().unwrap(),
        "no rendering context available (WebGL2 and Canvas 2D both failed)"
    );
    let gl = TerminalState::new("term", true, true, true, None, None).unwrap();
    assert!(gl.renderer == Renderer::WebGl2);
    assert_eq!(gl.size(), (24, 80));
    assert_eq!(gl.canvas_id(), "term");
    let flat = TerminalState::new("term", true, false, true, Some(10), None).unwrap();
    assert!(flat.renderer == Renderer::Canvas2d);
    assert_eq!(flat.size(), (10, 80));
    assert_eq!(flat.scroll_offset(), 0);
}

#[test]
fn first_frame_paints_the_whole_grid() {
    let mut s = terminal(false, 2, 3);
    s.process_bytes(b"a\x1b[1mB");
    let frame = ops(s.render());
    assert!(matches!(frame[0], DrawOp::Clear));
    assert!(matches!(frame[1], DrawOp::Baseline));
    assert!(matches!(frame[2], DrawOp::Font { bold: false }));
    assert_eq!(painted(&frame), all_cells(2, 3));
    assert_eq!(
        texts(&frame),
        vec![(0, 0, 0xf0f0f0, "a".to_string()), (0, 1, 0xf0f0f0, "B".to_string())]
    );
    assert!(frame.iter().any(|op| matches!(op, DrawOp::Font { bold: true })));
    // The block cursor comes last, on the blank cell behind the text.
    assert!(matches!(
        frame[frame.len() - 1],
        DrawOp::Fill { row: 0, col: 2, color: 0xf0f0f0 }
    ));
    assert_eq!(s.prev_cursor, Some((0, 2)));
}

#[test]
fn later_frames_paint_what_changed_and_the_cursor() {
    let mut s = terminal(false, 4, 10);
    s.process_bytes(b"hello");
    ops(s.render());
    s.process_bytes(b"\x1b[3;4HX");
    assert_eq!(s.dirty_cells, vec![(2, 3)]);
    let frame = ops(s.render());
    let mut cells = s.dirty_cells.clone();
    assert!(cells.is_empty());
    cells = painted(&frame);
    assert_eq!(cells, vec![(0, 5), (2, 3), (2, 4)]);
    assert!(!frame.iter().any(|op| matches!(op, DrawOp::Clear)));
    s.process_bytes(b"");
    assert!(s.dirty_cells.is_empty());
    let frame = ops(s.render());
    assert_eq!(painted(&frame), vec![(2, 4)]);
}

#[test]
fn many_changes_paint_the_whole_grid() {
    let mut s = terminal(false, 2, 4);
    s.process_bytes(b"x");
    ops(s.render());
    s.process_bytes(b"\x1b[Habcd");
    let frame = ops(s.render());
    assert_eq!(painted(&frame), all_cells(2, 4));
}

#[test]
fn wide_characters_are_repainted_whole() {
    let mut s = terminal(false, 3, 20);
    s.process_bytes("\u{4f60}".as_bytes());
    ops(s.render());
    s.process_bytes("\x1b[H\u{597d}".as_bytes());
    assert_eq!(s.dirty_cells, vec![(0, 0), (0, 1)]);
}

#[test]
fn selected_cells_are_highlighted_under_black_text() {
    let mut s = terminal(false, 2, 4);
    s.process_bytes(b"\x1b[31;44mab\x1b[0m");
    s.handle_selection_start(0, 0);
    s.handle_selection_update(0, 0);
    let frame = ops(s.render());
    assert!(frame
        .iter()
        .any(|op| matches!(op, DrawOp::Highlight { row: 0, col: 0, color: 0xCD0000 })));
    assert!(frame.iter().any(|op| matches!(op, DrawOp::Fill { row: 0, col: 1, color: 0x0000EE })));
    assert_eq!(
        texts(&frame),
        vec![(0, 0, 0x000000, "a".to_string()), (0, 1, 0xCD0000, "b".to_string())]
    );
}

#[test]
fn text_in_the_background_color_is_not_painted() {
    let mut s = terminal(false, 2, 4);
    s.process_bytes(b"\x1b[38;2;43;43;43mx\x1b[0m\xe2\x96\x88");
    let frame = ops(s.render());
    assert!(texts(&frame).is_empty());
    assert!(frame.iter().any(|op| matches!(op, DrawOp::Shape { row: 0, col: 1, .. })));
}

#[test]
fn cursor_is_drawn_with_swapped_colors() {
    let mut s = terminal(false, 2, 4);
    s.process_bytes(b"\x1b[31;44mx\x1b[H");
    let frame = ops(s.render());
    let n = frame.len();
    assert!(matches!(frame[n - 2], DrawOp::Fill { row: 0, col: 0, color: 0xCD0000 }));
    assert!(
        matches!(&frame[n - 1], DrawOp::Text { row: 0, col: 0, color: 0x0000EE, text } if text == "x")
    );
}

#[test]
fn scrolling_stays_within_the_history() {
    let mut s = terminal(false, 4, 20);
    s.process_bytes(&lines(10));
    assert_eq!(s.scrollback_len(), 7);
    assert_eq!(s.scroll_by(3), 3);
    assert_eq!(s.scroll_by(100), 7);
    assert_eq!(s.scroll_by(-100), 0);
    s.scroll_to_top();
    assert_eq!(s.scroll_offset(), 7);
    assert_eq!(s.parser_screen().rows(0, 20).next().unwrap(), "line 0");
    s.set_scroll_offset(2);
    assert_eq!(s.scroll_offset(), 2);
    assert_eq!(s.parser_screen().rows(0, 20).next().unwrap(), "line 5");
    s.scroll_to_bottom();
    assert_eq!(s.parser_screen().rows(0, 20).next().unwrap(), "line 7");
}

#[test]
fn scrolled_view_hides_the_cursor_and_drops_the_selection() {
    let mut s = terminal(false, 4, 20);
    s.process_bytes(&lines(10));
    s.handle_selection_start(0, 0);
    s.handle_selection_update(1, 1);
    assert!(s.selected(0, 5));
    s.set_scroll_offset(1);
    assert!(!s.selected(0, 5));
    assert_eq!(s.selection_start(), None);
    ops(s.render());
    assert_eq!(s.prev_cursor, None);
    s.scroll_to_bottom();
    ops(s.render());
    assert_eq!(s.prev_cursor, Some((3, 0)));
}

#[test]
fn alternate_screen_visit_keeps_the_scroll_position() {
    let mut s = terminal(false, 4, 20);
    s.process_bytes(&lines(10));
    s.set_scroll_offset(5);
    s.process_bytes(b"\x1b[?1049h");
    assert_eq!(s.scroll_offset(), 0);
    assert_eq!(s.scrollback_len(), 0);
    s.process_bytes(b"inside");
    s.process_bytes(b"\x1b[?1049l");
    assert_eq!(s.scroll_offset(), 5);
}

#[test]
fn cleared_history_pulls_the_offset_back_with_the_next_output() {
    let mut s = terminal(false, 4, 20);
    s.process_bytes(&lines(10));
    s.set_scroll_offset(5);
    s.process_bytes(b"\x1bc");
    assert_eq!(s.scroll_offset(), 5);
    s.set_scroll_offset(5);
    assert_eq!(s.scroll_offset(), 5);
    s.process_bytes(b"x");
    assert_eq!(s.scroll_offset(), 0);
}

#[test]
fn save_and_restore_cursor_work_across_chunks() {
    let mut s = terminal(false, 4, 20);
    s.process_bytes(b"ab\x1b[");
    s.process_bytes(b"s\x1b[3;3Hxyz\x1b");
    s.process_bytes(b"[u!");
    assert_eq!(s.parser_screen().rows(0, 20).next().unwrap(), "ab!");
}

#[test]
fn selection_state_follows_the_gesture() {
    let mut s = terminal(false, 4, 20);
    s.handle_selection_update(1, 1);
    assert_eq!(s.selection_end(), None);
    s.handle_selection_start(2, 2);
    assert!(s.selection_mode() == SelectionMode::Line);
    s.handle_selection_update(1, 1);
    assert_eq!(s.selection_end(), Some((1, 1)));
    ops(s.render());
    s.handle_selection_update(1, 1);
    assert!(!s.full_redraw);
    s.handle_selection_update(1, 2);
    assert!(s.full_redraw);
    assert_eq!(s.selection_cells().len(), 20 - 2 + 3);
    s.clear_selection();
    assert!(s.selection_cells().is_empty());
}

#[test]
fn webgl_frames_carry_selection_and_cursor() {
    let mut s = terminal(true, 4, 20);
    s.process_bytes(&lines(10));
    s.process_bytes(b"ab");
    s.handle_selection_start(0, 1);
    s.handle_selection_update(0, 2);
    s.schedule_render();
    assert!(s.needs_render);
    match s.render() {
        Frame::Gpu { selection, cursor } => {
            assert_eq!(selection, vec![(0, 1), (0, 2)]);
            assert_eq!(cursor, (3, 2));
        }
        Frame::Canvas { .. } => panic!("expected the WebGL2 renderer"),
    }
    assert!(!s.needs_render);
    s.set_scroll_offset(2);
    match s.render() {
        Frame::Gpu { selection, cursor } => {
            assert!(selection.is_empty());
            assert_eq!(cursor, (u16::MAX, u16::MAX));
        }
        Frame::Canvas { .. } => panic!("expected the WebGL2 renderer"),
    }
}

#[test]
fn operations_without_a_terminal_say_so() {
    let mut none: Option<TerminalState> = None;
    assert!(exports::process_bytes(&mut none, b"x").is_none());
    assert!(exports::query_replies(&none, b"\x1b[c").is_none());
    assert!(exports::repaint(&mut none).is_none());
    assert!(exports::handle_resize(&mut none, 80, 24).is_none());
    assert_eq!(exports::selection_mode(&none), "None");
    assert_eq!(exports::selected_text(&none), "");
    exports::set_selection(&mut none, 0, 0, 1, 1);
    assert!(exports::clear_selection(&mut none).is_none());
    assert_eq!(exports::scroll(&mut none, 3).0, 0);
    assert_eq!(exports::scroll_to(&mut none, 3).0, 0);
    assert!(exports::scroll_to_top(&mut none).is_none());
    assert!(exports::scroll_to_bottom(&mut none).is_none());
    assert_eq!(exports::scroll_offset(&none), 0);
    assert_eq!(exports::scrollback_len(&mut none), 0);
    assert!(none.is_none());
}

#[test]
fn operations_on_a_terminal() {
    let mut state = Some(terminal(false, 4, 20));
    let summary = exports::process_bytes(&mut state, &lines(10)).unwrap();
    assert_eq!(summary.byte_count, 80);
    assert_eq!((summary.rows, summary.cols), (4, 20));
    assert_eq!(exports::query_replies(&state, b"\x1b[6n").unwrap(), b"\x1b[4;1R");
    exports::set_selection(&mut state, 0, 0, 1, 5);
    assert_eq!(exports::selection_mode(&state), "Line");
    assert_eq!(exports::selected_text(&state), "line 7\nline 8");
    assert_eq!(exports::try_selected_text(&state), Some("line 7\nline 8".to_string()));
    exports::set_selection(&mut state, 0, 100, 1, 0);
    assert_eq!(exports::try_selected_text(&state), None);
    assert!(exports::clear_selection(&mut state).is_some());
    assert_eq!(exports::selected_text(&state), "");
    assert_eq!(exports::try_selected_text(&state), Some(String::new()));
    assert_eq!(exports::scrollback_len(&mut state), 7);
    assert_eq!(exports::scroll(&mut state, 2).0, 2);
    assert_eq!(exports::scroll_to(&mut state, 99).0, 7);
    assert!(exports::scroll_to_bottom(&mut state).is_some());
    assert_eq!(exports::scroll_offset(&state), 0);
    assert!(exports::scroll_to_top(&mut state).is_some());
    assert_eq!(exports::scroll_offset(&state), 7);
    let all = ops(exports::repaint(&mut state).unwrap());
    assert_eq!(painted(&all), all_cells(4, 20));
    assert_eq!(exports::version(), "krust-terminal 0.3.0");
}

#[test]
fn resizing_keeps_a_minimal_grid() {
    let mut state = Some(terminal(false, 4, 20));
    assert_eq!(exports::handle_resize(&mut state, 0, 0), Some((1, 2)));
    let s = state.unwrap();
    assert_eq!(s.size(), (1, 2));
    // The emulator keeps the least that it can work with.
    assert_eq!(s.parser_screen().size(), (2, 3));
    assert!(s.full_redraw);
    let mut state = Some(s);
    assert_eq!(exports::handle_resize(&mut state, 132, 43), Some((43, 132)));
    assert_eq!(state.unwrap().parser_screen().size(), (43, 132));
}

fn inked(rows: &[usize], col: usize) -> Vec<u8> {
    let mut pixels = vec![0u8; SCRATCH_BYTES];
    for y in rows {
        pixels[(y * 64 + col) * 4 + 3] = 1;
    }
    pixels
}

#[test]
fn ink_is_measured_between_its_first_and_last_row() {
    assert_eq!(ink_height(&inked(&[], 8)), 0);
    assert_eq!(ink_height(&inked(&[10], 8)), 1);
    assert_eq!(ink_height(&inked(&[10, 27], 23)), 18);
    assert_eq!(ink_height(&inked(&[0, 63], 15)), 64);
    assert_eq!(ink_height(&inked(&[5], 24)), 0);
    assert_eq!(ink_height(&inked(&[5], 7)), 0);
}

#[test]
fn tallest_probe_decides_the_height() {
    let probes = vec![inked(&[10, 12], 9), inked(&[3, 20], 9), inked(&[], 9)];
    assert_eq!(rasterized_glyph_height_max(&probes), Some(18));
    assert_eq!(rasterized_glyph_height_max(&vec![inked(&[], 9)]), Some(0));
    assert_eq!(rasterized_glyph_height_max(&vec![inked(&[1], 9), vec![0; 100]]), None);
}

#[test]
fn changes_add_up_until_a_frame_is_drawn() {
    let mut s = terminal(false, 4, 10);
    s.process_bytes(b"hello");
    ops(s.render());
    s.process_bytes(b"\x1b[2;1Ha");
    s.process_bytes(b"\x1b[3;1Hb");
    s.process_bytes(b"\x1b[4;1Hc");
    assert_eq!(s.dirty_cells, vec![(1, 0), (2, 0), (3, 0)]);
    s.process_bytes(b"\x1b[3;1H\x1b[X");
    assert_eq!(s.dirty_cells, vec![(1, 0), (3, 0)]);
    let frame = ops(s.render());
    assert_eq!(painted(&frame), vec![(0, 5), (1, 0), (2, 0), (3, 0)]);
    assert_eq!(
        texts(&frame),
        vec![(1, 0, 0xf0f0f0, "a".to_string()), (3, 0, 0xf0f0f0, "c".to_string())]
    );
    s.process_bytes(b"");
    assert!(s.dirty_cells.is_empty());
}

#[test]
fn a_frame_paints_what_moves_into_view() {
    let mut s = terminal(false, 4, 20);
    s.process_bytes(&lines(10));
    s.scroll_by(2);
    ops(s.render());
    // The recorded offset stays, so new output moves the view by a row.
    s.process_bytes(b"more\r\n");
    let frame = ops(s.render());
    let shown: Vec<String> = texts(&frame).into_iter().map(|t| t.3).collect();
    assert!(shown.concat().contains('9'));
    assert_eq!(s.scroll_offset(), 2);
}

/// The text of a row of the terminal's screen.
fn row(state: &Option<TerminalState>, row: u16) -> String {
    let screen = state.as_ref().unwrap().parser_screen();
    screen.contents_between(row, 0, row, screen.size().1)
}

#[test]
fn small_and_wide_terminals_take_output() {
    let mut state = Some(terminal(false, 4, 20));
    assert_eq!(exports::handle_resize(&mut state, 20, 1), Some((1, 20)));
    let long = "x".repeat(50);
    assert_eq!(exports::process_bytes(&mut state, long.as_bytes()).unwrap().rows, 1);
    let frame = ops(exports::repaint(&mut state).unwrap());
    assert_eq!(painted(&frame), all_cells(1, 20));
    assert_eq!(texts(&frame).len(), 20);
    assert_eq!(exports::handle_resize(&mut state, 2, 4), Some((4, 2)));
    let output = "abc\u{4f60}\u{17d8}\t".as_bytes();
    assert_eq!(exports::process_bytes(&mut state, output).unwrap().cols, 2);
    assert_eq!(exports::handle_resize(&mut state, u16::MAX, 4), Some((4, u16::MAX)));
    assert!(exports::process_bytes(&mut state, b"\x1b[65535G\tabc").is_some());
    assert_eq!(state.as_ref().unwrap().parser_screen().size(), (4, 65527));
}

#[test]
fn a_wide_character_at_the_new_edge_is_dropped() {
    let mut state = Some(terminal(false, 4, 20));
    exports::process_bytes(&mut state, "ab\u{4f60}c\r\nabc\u{597d}\r\n\x1b[31mde".as_bytes()).unwrap();
    exports::handle_resize(&mut state, 4, 4);
    assert_eq!((row(&state, 0), row(&state, 1)), ("ab\u{4f60}".to_string(), "abc".to_string()));
    assert_eq!(state.as_ref().unwrap().parser_screen().cursor_position(), (2, 2));
    exports::handle_resize(&mut state, 3, 4);
    assert_eq!((row(&state, 0), row(&state, 1)), ("ab".to_string(), "abc".to_string()));
    let edge = state.as_ref().unwrap().parser_screen().cell(0, 2).unwrap();
    assert!(!edge.is_wide() && !edge.has_contents() && edge.fgcolor() == vt100::Color::Default);
    // The cursor and the color of new text are as before.
    exports::process_bytes(&mut state, b"f").unwrap();
    assert_eq!(row(&state, 2), "def");
    let cell = state.as_ref().unwrap().parser_screen().cell(2, 2).unwrap();
    assert_eq!(cell.fgcolor(), vt100::Color::Idx(1));
    // The edge can be written to and erased.
    exports::process_bytes(&mut state, "\x1b[1;3Hx\x1b[1;3H\x1b[X\x1b[1;2H\u{4f60}".as_bytes()).unwrap();
    exports::handle_resize(&mut state, 20, 4);
    assert_eq!(row(&state, 0), "a\u{4f60}");
}

#[test]
fn both_screens_are_mended() {
    let mut state = Some(terminal(false, 4, 20));
    exports::process_bytes(&mut state, "ab\u{4f60}\x1b[?1049hcd\u{597d}e".as_bytes()).unwrap();
    exports::handle_resize(&mut state, 3, 4);
    assert!(state.as_ref().unwrap().parser_screen().alternate_screen());
    assert_eq!(row(&state, 0), "cd");
    exports::process_bytes(&mut state, b"\x1b[1;3Hx\x1b[?1049l").unwrap();
    assert!(!state.as_ref().unwrap().parser_screen().alternate_screen());
    assert_eq!(row(&state, 0), "ab");
    exports::process_bytes(&mut state, b"\x1b[1;3Hy").unwrap();
    assert_eq!(row(&state, 0), "aby");
}

#[test]
fn mending_keeps_unfinished_input_and_the_view() {
    let mut state = Some(terminal(false, 4, 20));
    exports::process_bytes(&mut state, &lines(10)).unwrap();
    exports::process_bytes(&mut state, "\x1b[1;1H12\u{4f60}\x1b[4;1H\x1b[3".as_bytes()).unwrap();
    exports::scroll(&mut state, 2);
    exports::handle_resize(&mut state, 3, 4);
    assert_eq!(exports::scrollback_len(&mut state), 7);
    assert_eq!(state.as_ref().unwrap().parser_screen().scrollback(), 2);
    exports::scroll_to_bottom(&mut state);
    assert_eq!(row(&state, 0), "12");
    // The rest of the sequence that was under way.
    exports::process_bytes(&mut state, b"2mz").unwrap();
    let cell = state.as_ref().unwrap().parser_screen().cell(3, 0).unwrap();
    assert_eq!((cell.contents(), cell.fgcolor()), ("z", vt100::Color::Idx(2)));
}
