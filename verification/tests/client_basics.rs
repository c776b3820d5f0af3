//! Colors, graphics, keyboard input, query replies, the output stream and
//! selections of the client.

use krust::client::cells::{add_cell, append_cell, comes_before};
use krust::client::color::{
    cell_fg_rgb, cell_visual, color_to_rgb, css_color, rgb_channels, xterm_palette, CellOverride,
    Color, DEFAULT_BG, DEFAULT_FG, SELECTION_FG,
};
use krust::client::graphics::{
    block_geometry, box_geometry, box_line_width, draw_box_lines, draw_graphic_cell, BarSide,
    Graphic, LineWeight, Reach, StemSide,
};
use krust::client::input::{is_printable_ascii, key_to_bytes, map_key, xterm_modifier_param};
use krust::client::query::collect_query_replies;
use krust::client::screen::{read_cell, Cell};
use krust::client::scroll::ScrollState;
use krust::client::selection::{
    can_extract, cell_is_selected, extract_selection, normalized_bounds, trim_newlines,
    SelectionMode, SelectionState,
};
use krust::client::state::{DEFAULT_COLS, DEFAULT_ROWS, SCROLLBACK_LEN};
use krust::client::stream::normalize_save_restore;
use vt100::Parser;

fn cell() -> Cell {
    let mut p = Parser::new(1, 1, 0);
    p.process("\u{1b}[31;44mX".as_bytes());
    read_cell(p.screen(), 0, 0).unwrap()
}

#[test]
fn normal_uses_cell_colors() {
    let (fg, bg) = cell_visual(&Some(cell()), DEFAULT_FG, DEFAULT_BG, CellOverride::Normal);
    assert_eq!(fg, 0xCD0000);
    assert_eq!(bg, 0x0000EE);
}

#[test]
fn selected_keeps_original_fg_as_highlight() {
    let (fg, bg) = cell_visual(
        &Some(cell()),
        DEFAULT_FG,
        DEFAULT_BG,
        CellOverride::Selected,
    );
    assert_eq!(fg, SELECTION_FG);
    assert_eq!(bg, 0xCD0000);
}

#[test]
fn cursor_swaps_fg_and_bg() {
    let (fg, bg) = cell_visual(&Some(cell()), DEFAULT_FG, DEFAULT_BG, CellOverride::Cursor);
    assert_eq!(fg, 0x0000EE);
    assert_eq!(bg, 0xCD0000);
}

#[test]
fn empty_cell_yields_defaults() {
    let (fg, bg) = cell_visual(&None, DEFAULT_FG, DEFAULT_BG, CellOverride::Normal);
    assert_eq!(fg, DEFAULT_FG);
    assert_eq!(bg, DEFAULT_BG);
}

#[test]
fn lib_query_replies_da1() {
    assert_eq!(collect_query_replies(b"\x1b[c", 0, 0), b"\x1b[?1;2c");
    assert_eq!(collect_query_replies(b"\x1b[0c", 0, 0), b"\x1b[?1;2c");
}

#[test]
fn lib_query_replies_da2() {
    assert_eq!(collect_query_replies(b"\x1b[>c", 0, 0), b"\x1b[>0;1;0c");
}

#[test]
fn lib_query_replies_cursor_position() {
    assert_eq!(collect_query_replies(b"\x1b[6n", 2, 4), b"\x1b[3;5R");
}

#[test]
fn lib_query_replies_osc11() {
    assert_eq!(
        collect_query_replies(b"\x1b]11;?\x1b\\", 0, 0),
        b"\x1b]11;rgb:2b2b/2b2b/2b2b\x1b\\"
    );
}

#[test]
fn lib_query_replies_pass_through_plain_text() {
    assert_eq!(collect_query_replies(b"plain text\n", 0, 0), b"");
}

#[test]
fn lib_query_replies_multiple_in_one_chunk() {
    assert_eq!(
        collect_query_replies(b"\x1b[c\x1b[6n", 1, 1),
        b"\x1b[?1;2c\x1b[2;2R"
    );
}

#[test]
fn background_query_may_end_in_bel_but_must_end() {
    assert_eq!(
        collect_query_replies(b"\x1b]11;?\x07", 0, 0),
        b"\x1b]11;rgb:2b2b/2b2b/2b2b\x1b\\"
    );
    assert_eq!(
        collect_query_replies(b"\x1b]11;?\x07x", 0, 0),
        b"\x1b]11;rgb:2b2b/2b2b/2b2b\x1b\\"
    );
    assert_eq!(collect_query_replies(b"\x1b]11;?", 0, 0), b"");
    assert_eq!(collect_query_replies(b"\x1b]11;?\x1b", 0, 0), b"");
    assert_eq!(collect_query_replies(b"\x1b]10;?\x1b\\", 0, 0), b"");
    assert_eq!(
        collect_query_replies(b"\x1b]11;?\x1b\\\x1b[6n", 9, 99),
        b"\x1b]11;rgb:2b2b/2b2b/2b2b\x1b\\\x1b[10;100R"
    );
}

#[test]
fn unfinished_and_foreign_sequences_get_no_reply() {
    assert_eq!(collect_query_replies(b"\x1b[6", 0, 0), b"");
    assert_eq!(collect_query_replies(b"\x1b", 0, 0), b"");
    assert_eq!(collect_query_replies(b"\x1b[5n", 0, 0), b"");
    assert_eq!(collect_query_replies(b"\x1b[1c", 0, 0), b"");
    assert_eq!(collect_query_replies(b"\x1b[?6n", 0, 0), b"");
    assert_eq!(collect_query_replies(b"\x1b[>0c", 0, 0), b"\x1b[>0;1;0c");
}

#[test]
fn lib_parser_renders_hello_world() {
    let mut parser = Parser::new(DEFAULT_ROWS, DEFAULT_COLS, SCROLLBACK_LEN);
    parser.process(b"Hello World");
    let first_row = parser.screen().rows(0, DEFAULT_COLS).next().unwrap();
    assert_eq!(first_row, "Hello World");
}

#[test]
fn lib_parser_strips_ansi_escapes() {
    let mut parser = Parser::new(DEFAULT_ROWS, DEFAULT_COLS, SCROLLBACK_LEN);
    parser.process(b"\x1b[31mred\x1b[0m");
    let first_row = parser.screen().rows(0, DEFAULT_COLS).next().unwrap();
    assert_eq!(first_row, "red");
}

#[test]
fn lib_parser_tracks_cursor() {
    let mut parser = Parser::new(DEFAULT_ROWS, DEFAULT_COLS, SCROLLBACK_LEN);
    parser.process(b"ab");
    assert_eq!(parser.screen().cursor_position(), (0, 2));
}

#[test]
fn lib_parser_cells_map_to_hello_world() {
    let mut parser = Parser::new(DEFAULT_ROWS, DEFAULT_COLS, SCROLLBACK_LEN);
    parser.process(b"Hello World");
    let screen = parser.screen();
    let mut text = String::new();
    for col in 0..11 {
        let cell = read_cell(screen, 0, col).unwrap();
        text.push(cell.contents.chars().next().unwrap());
    }
    assert_eq!(text, "Hello World");
}

#[test]
fn read_cell_reports_every_attribute() {
    let mut parser = Parser::new(2, 4, 0);
    parser.process("\x1b[1;3;4;7;38;2;1;2;3;48;5;200m\u{4f60}".as_bytes());
    let first = read_cell(parser.screen(), 0, 0).unwrap();
    assert_eq!(first.contents, "\u{4f60}");
    assert_eq!(first.fg, Color::Rgb(1, 2, 3));
    assert_eq!(first.bg, Color::Idx(200));
    assert!(first.bold && first.italic && first.underline && first.inverse);
    assert!(!first.dim);
    assert!(first.wide && !first.wide_continuation);
    let second = read_cell(parser.screen(), 0, 1).unwrap();
    assert!(second.wide_continuation && !second.wide);
    let blank = read_cell(parser.screen(), 1, 3).unwrap();
    assert_eq!(blank.contents, "");
    assert_eq!(blank.fg, Color::Default);
    assert!(read_cell(parser.screen(), 2, 0).is_none());
    assert!(read_cell(parser.screen(), 0, 4).is_none());
}

#[test]
fn lib_xterm_256_palette_maps_known_colors() {
    assert_eq!(xterm_palette(0), 0x000000);
    assert_eq!(xterm_palette(1), 0xCD0000);
    assert_eq!(xterm_palette(4), 0x0000EE);
    assert_eq!(xterm_palette(9), 0xFF0000);
    assert_eq!(xterm_palette(12), 0x5C5CFF);
    assert_eq!(xterm_palette(15), 0xFFFFFF);
    assert_eq!(xterm_palette(16), 0x000000);
    assert_eq!(xterm_palette(196), 0xFF0000);
    assert_eq!(xterm_palette(255), 0xEEEEEE);
}

#[test]
fn palette_cube_and_ramp_edges() {
    assert_eq!(xterm_palette(17), 0x00005F);
    assert_eq!(xterm_palette(231), 0xFFFFFF);
    assert_eq!(xterm_palette(232), 0x080808);
    assert_eq!(xterm_palette(110), 0x87AFD7);
}

#[test]
fn lib_color_to_rgb_maps_default_and_idx() {
    assert_eq!(color_to_rgb(Color::Default, DEFAULT_FG), DEFAULT_FG);
    assert_eq!(color_to_rgb(Color::Default, DEFAULT_BG), DEFAULT_BG);
    assert_eq!(color_to_rgb(Color::Idx(1), DEFAULT_FG), 0xCD0000);
    assert_eq!(
        color_to_rgb(Color::Rgb(255, 0, 128), DEFAULT_FG),
        0xFF0080
    );
}

#[test]
fn lib_bold_base_colors_render_as_bright() {
    let mut p = Parser::new(DEFAULT_ROWS, DEFAULT_COLS, SCROLLBACK_LEN);
    p.process(b"\x1b[1;34mX");
    let cell = read_cell(p.screen(), 0, 0).unwrap();
    assert!(cell.bold);
    assert_eq!(cell.fg, Color::Idx(4));
    assert_eq!(cell_fg_rgb(&cell, DEFAULT_FG), xterm_palette(12));
    assert_eq!(cell_fg_rgb(&cell, DEFAULT_FG), 0x5C5CFF);
}

#[test]
fn lib_non_bold_uses_palette_color() {
    let mut p = Parser::new(DEFAULT_ROWS, DEFAULT_COLS, SCROLLBACK_LEN);
    p.process(b"\x1b[34mX");
    let cell = read_cell(p.screen(), 0, 0).unwrap();
    assert!(!cell.bold);
    assert_eq!(cell_fg_rgb(&cell, DEFAULT_FG), 0x0000EE);
}

#[test]
fn bold_leaves_bright_and_direct_colors_alone() {
    let mut p = Parser::new(1, 4, 0);
    p.process(b"\x1b[1;38;5;9mX\x1b[38;2;1;2;3mY\x1b[39mZ");
    assert_eq!(cell_fg_rgb(&read_cell(p.screen(), 0, 0).unwrap(), DEFAULT_FG), 0xFF0000);
    assert_eq!(cell_fg_rgb(&read_cell(p.screen(), 0, 1).unwrap(), DEFAULT_FG), 0x010203);
    assert_eq!(cell_fg_rgb(&read_cell(p.screen(), 0, 2).unwrap(), DEFAULT_FG), DEFAULT_FG);
}

#[test]
fn css_colors_have_six_digits() {
    assert_eq!(css_color(0x2b2b2b), "#2b2b2b");
    assert_eq!(css_color(0), "#000000");
    assert_eq!(css_color(0xabcdef), "#abcdef");
    assert_eq!(css_color(0x1234567), "#1234567");
    assert_eq!(css_color(0xffffffff), "#ffffffff");
}

#[test]
fn channels_are_read_back() {
    assert_eq!(rgb_channels(0x123456), (0x12, 0x34, 0x56));
    assert_eq!(rgb_channels(0xff_00_00_01), (0, 0, 1));
}

fn fractions(g: (u8, u8, u8, u8, u8)) -> (f64, f64, f64, f64, f64) {
    let f = |q: u8| q as f64 / 4.0;
    (f(g.0), f(g.1), f(g.2), f(g.3), f(g.4))
}

#[test]
fn lib_block_geometry_covers_known_blocks() {
    // Full block is opaque and covers the whole cell.
    let g = fractions(block_geometry('\u{2588}').unwrap());
    assert_eq!(g, (0.0, 0.0, 1.0, 1.0, 1.0));
    // Half blocks cover exactly half; shades use alpha.
    assert_eq!(fractions(block_geometry('\u{2580}').unwrap()).3, 0.5);
    assert_eq!(fractions(block_geometry('\u{2592}').unwrap()).4, 0.5);
    assert_eq!(fractions(block_geometry('\u{2584}').unwrap()).1, 0.5);
    // Non-block chars return None.
    assert!(block_geometry('A').is_none());
    assert!(box_geometry('A').is_none());
    // Box-drawing corners encode the correct arms.
    assert_eq!(box_geometry('\u{250C}').unwrap(), (BarSide::Right, StemSide::Up, LineWeight::Light));
    assert_eq!(box_geometry('\u{2510}').unwrap(), (BarSide::Left, StemSide::Up, LineWeight::Light));
    assert_eq!(box_geometry('\u{2514}').unwrap(), (BarSide::Right, StemSide::Down, LineWeight::Light));
    assert_eq!(box_geometry('\u{2518}').unwrap(), (BarSide::Left, StemSide::Down, LineWeight::Light));
    assert_eq!(box_geometry('\u{2500}').unwrap(), (BarSide::Full, StemSide::Absent, LineWeight::Light));
    assert_eq!(box_geometry('\u{2502}').unwrap(), (BarSide::Absent, StemSide::Full, LineWeight::Light));
    assert_eq!(box_geometry('\u{2501}').unwrap().2, LineWeight::Heavy);
    assert_eq!(box_geometry('\u{2550}').unwrap().2, LineWeight::Double);
    assert!(box_geometry('A').is_none());
}

#[test]
fn box_geometry_edges_of_the_table() {
    assert_eq!(box_geometry('\u{254B}').unwrap(), (BarSide::Full, StemSide::Full, LineWeight::Heavy));
    assert_eq!(box_geometry('\u{2570}').unwrap(), (BarSide::Right, StemSide::Down, LineWeight::Light));
    assert_eq!(box_geometry('\u{250B}').unwrap(), (BarSide::Absent, StemSide::Full, LineWeight::Light));
    assert_eq!(box_geometry('\u{2544}').unwrap(), (BarSide::Left, StemSide::Full, LineWeight::Light));
    assert!(box_geometry('\u{2552}').is_none());
    assert!(box_geometry('\u{2571}').is_none());
    assert!(box_geometry('\u{24FF}').is_none());
}

#[test]
fn graphic_cells_go_by_their_first_character() {
    assert_eq!(draw_graphic_cell("\u{2591}x"), Some(Graphic::Block(0, 0, 4, 4, 1)));
    assert_eq!(
        draw_graphic_cell("\u{2503}"),
        Some(Graphic::Lines(BarSide::Absent, StemSide::Full, LineWeight::Heavy))
    );
    assert_eq!(draw_graphic_cell("a\u{2503}"), None);
    assert_eq!(draw_graphic_cell(""), None);
}

#[test]
fn box_lines_are_single_or_double_strokes() {
    assert_eq!(box_line_width(LineWeight::Light), (4, 0));
    assert_eq!(box_line_width(LineWeight::Heavy), (6, 0));
    assert_eq!(box_line_width(LineWeight::Double), (3, 6));
    let corner = draw_box_lines(BarSide::Right, StemSide::Up, LineWeight::Light);
    assert_eq!(corner.len(), 2);
    assert!(corner[0].vertical && corner[0].reach == Reach::Near && corner[0].offset == 0);
    assert!(!corner[1].vertical && corner[1].reach == Reach::Far && corner[1].thickness == 4);
    let cross = draw_box_lines(BarSide::Full, StemSide::Full, LineWeight::Double);
    let offsets: Vec<i8> = cross.iter().map(|l| l.offset).collect();
    assert_eq!(offsets, vec![-6, -6, 6, 6]);
    assert!(cross.iter().all(|l| l.reach == Reach::Whole && l.thickness == 3));
}

#[test]
fn lib_map_key_ctrl_c_returns_control_c() {
    assert_eq!(map_key("c", true, false, false, false), vec![0x03]);
}

#[test]
fn lib_map_key_ctrl_bracket_returns_escape() {
    assert_eq!(map_key("[", true, false, false, false), vec![0x1b]);
}

#[test]
fn lib_map_key_shift_enter_returns_esc_cr() {
    assert_eq!(map_key("Enter", false, false, true, false), vec![0x1b, 0x0d]);
}

#[test]
fn lib_map_key_arrow_up_returns_escape_bracket_a() {
    assert_eq!(map_key("ArrowUp", false, false, false, false), vec![0x1b, b'[', b'A']);
    assert_eq!(map_key("ArrowDown", false, false, false, false), vec![0x1b, b'[', b'B']);
    assert_eq!(map_key("ArrowRight", false, false, false, false), vec![0x1b, b'[', b'C']);
    assert_eq!(map_key("ArrowLeft", false, false, false, false), vec![0x1b, b'[', b'D']);
}

#[test]
fn lib_map_key_f1_returns_escape_bracket_11_tilde() {
    assert_eq!(map_key("F1", false, false, false, false), b"\x1b[11~".to_vec());
    assert_eq!(map_key("F12", false, false, false, false), b"\x1b[24~".to_vec());
}

#[test]
fn lib_map_key_alt_x_returns_escape_x() {
    assert_eq!(map_key("x", false, true, false, false), vec![0x1b, b'x']);
}

#[test]
fn lib_map_key_plain_printable_passes_through() {
    assert_eq!(map_key("a", false, false, false, false), vec![b'a']);
    assert_eq!(map_key("5", false, false, false, false), vec![b'5']);
}

#[test]
fn lib_map_key_modifier_param_encoding() {
    assert_eq!(xterm_modifier_param(false, false, false), None);
    assert_eq!(xterm_modifier_param(false, false, true), Some(2));
    assert_eq!(xterm_modifier_param(false, true, false), Some(3));
    assert_eq!(xterm_modifier_param(true, false, false), Some(5));
    assert_eq!(xterm_modifier_param(false, true, true), Some(4));
    assert_eq!(xterm_modifier_param(true, false, true), Some(6));
    assert_eq!(xterm_modifier_param(true, true, false), Some(7));
}

#[test]
fn lib_map_key_unknown_returns_empty() {
    assert_eq!(map_key("CapsLock", false, false, false, false), Vec::<u8>::new());
}

#[test]
fn map_key_remaining_tables() {
    let plain = |key: &str| map_key(key, false, false, false, false);
    assert_eq!(plain("Enter"), b"\r");
    assert_eq!(plain("Tab"), b"\t");
    assert_eq!(plain("Escape"), b"\x1b");
    assert_eq!(plain("Backspace"), b"\x7f");
    assert_eq!(plain("Delete"), b"\x1b[3~");
    assert_eq!(plain("Insert"), b"\x1b[2~");
    assert_eq!(plain("Home"), b"\x1b[H");
    assert_eq!(plain("End"), b"\x1b[F");
    assert_eq!(plain("PageUp"), b"\x1b[5~");
    assert_eq!(plain("PageDown"), b"\x1b[6~");
    assert_eq!(plain("F5"), b"\x1b[15~");
    assert_eq!(plain("F6"), b"\x1b[17~");
    assert_eq!(plain("F10"), b"\x1b[21~");
    assert_eq!(plain("F11"), b"\x1b[23~");
    assert_eq!(plain(" "), b" ");
    assert_eq!(plain("\u{e9}"), b"");
    assert_eq!(plain(""), b"");
    let ctrl = |key: &str| map_key(key, true, false, false, false);
    assert_eq!(ctrl("Space"), vec![0x00]);
    assert_eq!(ctrl("\\"), vec![0x1c]);
    assert_eq!(ctrl("]"), vec![0x1d]);
    assert_eq!(ctrl("^"), vec![0x1e]);
    assert_eq!(ctrl("_"), vec![0x1f]);
    assert_eq!(ctrl("Backspace"), vec![0x08]);
    assert_eq!(ctrl("Z"), vec![0x1a]);
    assert_eq!(ctrl("5"), b"5");
    assert_eq!(ctrl("Enter"), b"\x1b[13;5u");
    assert_eq!(map_key("Enter", false, true, false, false), b"\x1b[13;3u");
    assert_eq!(map_key("Tab", false, false, true, false), b"\x1b[Z");
    assert_eq!(map_key("CapsLock", false, true, false, false), b"");
    assert_eq!(map_key("a", false, false, false, true), b"a");
}

#[test]
fn keys_come_as_utf8() {
    assert_eq!(key_to_bytes(b"ArrowUp", false, false, false, false), b"\x1b[A");
    assert_eq!(key_to_bytes(b"q", true, false, false, false), vec![17]);
    assert_eq!(key_to_bytes(b"\xff\xfe", false, false, false, false), b"");
    assert_eq!(key_to_bytes("\u{4f60}".as_bytes(), false, false, false, false), b"");
}

#[test]
fn printable_ascii_is_space_to_tilde() {
    assert!(is_printable_ascii(' '));
    assert!(is_printable_ascii('~'));
    assert!(!is_printable_ascii('\u{7f}'));
    assert!(!is_printable_ascii('\u{1f}'));
    assert!(!is_printable_ascii('\u{e9}'));
}

#[test]
fn normalize_maps_csi_save_restore() {
    let mut carry = Vec::new();
    assert_eq!(normalize_save_restore(b"\x1b[s\x1b[u", &mut carry), b"\x1b7\x1b8");
    assert!(carry.is_empty());
}

#[test]
fn normalize_leaves_other_sequences_untouched() {
    let mut carry = Vec::new();
    assert_eq!(
        normalize_save_restore(b"\x1b[H\x1b[?1049h\x1b[?1049l\x1b[K", &mut carry),
        b"\x1b[H\x1b[?1049h\x1b[?1049l\x1b[K"
    );
}

#[test]
fn normalize_carries_sequences_across_chunk_boundaries() {
    let mut carry = Vec::new();
    assert_eq!(normalize_save_restore(b"pre\x1b[", &mut carry), b"pre");
    assert_eq!(carry, b"\x1b[");
    assert_eq!(normalize_save_restore(b"s mid", &mut carry), b"\x1b7 mid");
    assert!(carry.is_empty());
}

#[test]
fn normalize_carries_lone_escape() {
    let mut carry = Vec::new();
    assert_eq!(normalize_save_restore(b"x\x1b", &mut carry), b"x");
    assert_eq!(carry, b"\x1b");
    assert_eq!(normalize_save_restore(b"[u", &mut carry), b"\x1b8");
    assert!(carry.is_empty());
}

#[test]
fn normalize_handles_complete_sequence_at_chunk_end() {
    let mut carry = Vec::new();
    assert_eq!(normalize_save_restore(b"\x1b[s", &mut carry), b"\x1b7");
    assert!(carry.is_empty());
}

#[test]
fn chunking_is_invisible_at_every_split() {
    let stream = b"a\x1b\x1b[s\x1b[ub\x1b[Hs\x1b[";
    let mut whole_carry = Vec::new();
    let whole = normalize_save_restore(stream, &mut whole_carry);
    assert_eq!(whole, b"a\x1b\x1b7\x1b8b\x1b[Hs");
    for split in 0..=stream.len() {
        let mut carry = Vec::new();
        let mut out = normalize_save_restore(&stream[..split], &mut carry);
        out.extend(normalize_save_restore(&stream[split..], &mut carry));
        assert_eq!(out, whole);
        assert_eq!(carry, whole_carry);
    }
}

#[test]
fn cell_is_selected_single_row_range() {
    let start = (0, 1);
    let end = (0, 4);
    assert!(cell_is_selected(start, end, 0, 1));
    assert!(cell_is_selected(start, end, 0, 3));
    assert!(cell_is_selected(start, end, 0, 4));
    assert!(!cell_is_selected(start, end, 0, 5));
    assert!(!cell_is_selected(start, end, 0, 0));
    assert!(!cell_is_selected(start, end, 1, 2));
}

#[test]
fn cell_is_selected_is_direction_agnostic() {
    let a = (0, 3);
    let b = (2, 5);
    assert!(cell_is_selected(a, b, 0, 3));
    assert!(cell_is_selected(a, b, 0, 70));
    assert!(cell_is_selected(b, a, 0, 3));
    assert!(cell_is_selected(a, b, 1, 0));
    assert!(cell_is_selected(a, b, 1, 79));
    assert!(cell_is_selected(a, b, 2, 5));
    assert!(!cell_is_selected(a, b, 2, 6));
    assert!(!cell_is_selected(a, b, 3, 0));
}

#[test]
fn cell_is_selected_middle_rows_are_fully_selected() {
    assert!(cell_is_selected((0, 4), (3, 2), 1, 0));
    assert!(cell_is_selected((0, 4), (3, 2), 2, 79));
}

#[test]
fn cell_is_selected_degenerate_single_cell() {
    assert!(cell_is_selected((2, 2), (2, 2), 2, 2));
    assert!(!cell_is_selected((2, 2), (2, 2), 2, 3));
}

#[test]
fn bounds_are_put_in_reading_order() {
    assert_eq!(normalized_bounds((1, 2), (1, 1)), ((1, 1), (1, 2)));
    assert_eq!(normalized_bounds((0, 9), (1, 0)), ((0, 9), (1, 0)));
    assert_eq!(normalized_bounds((3, 3), (3, 3)), ((3, 3), (3, 3)));
}

#[test]
fn selection_extract_selection_reads_cells_in_order() {
    let mut parser = Parser::new(DEFAULT_ROWS, DEFAULT_COLS, SCROLLBACK_LEN);
    parser.process(b"hello\r\nworld");
    let out = extract_selection(parser.screen(), (0, 0), (1, 10));
    assert!(out.contains("hello"));
    assert!(out.contains("world"));
}

#[test]
fn extract_selection_copies_across_lines() {
    let mut parser = Parser::new(DEFAULT_ROWS, DEFAULT_COLS, SCROLLBACK_LEN);
    parser.process(b"hello\r\nworld");
    let out = extract_selection(parser.screen(), (0, 0), (1, 5));
    assert_eq!(out, "hello\nworld");
}

#[test]
fn extract_selection_copies_middle_rows_in_full() {
    let mut parser = Parser::new(DEFAULT_ROWS, DEFAULT_COLS, SCROLLBACK_LEN);
    parser.process(b"one\r\ntwo\r\nthree\r\nfour");
    let out = extract_selection(parser.screen(), (0, 0), (3, 4));
    assert_eq!(out, "one\ntwo\nthree\nfour");
}

#[test]
fn selection_extract_selection_backwards_equals_forward() {
    let mut parser = Parser::new(DEFAULT_ROWS, DEFAULT_COLS, SCROLLBACK_LEN);
    parser.process(b"abcdef");
    let screen = parser.screen();
    let forward = extract_selection(&screen, (0, 1), (0, 4));
    let backward = extract_selection(&screen, (0, 4), (0, 1));
    assert_eq!(forward, backward);
    assert_eq!(forward, "bcde");
}

#[test]
fn extract_selection_single_cell_copies_contents() {
    let mut parser = Parser::new(DEFAULT_ROWS, DEFAULT_COLS, SCROLLBACK_LEN);
    parser.process(b"abcdef");
    let screen = parser.screen();
    assert_eq!(extract_selection(&screen, (0, 2), (0, 2)), "c");
}

#[test]
fn extract_selection_trims_trailing_newline() {
    let mut parser = Parser::new(DEFAULT_ROWS, DEFAULT_COLS, SCROLLBACK_LEN);
    parser.process(b"hello\r\nworld\r\n");
    let out = extract_selection(parser.screen(), (0, 0), (2, 0));
    assert_eq!(out, "hello\nworld");
}

#[test]
fn extract_selection_joins_wrapped_lines_without_newline() {
    let mut parser = Parser::new(DEFAULT_ROWS, DEFAULT_COLS, SCROLLBACK_LEN);
    let mut feed = String::new();
    for _ in 0..DEFAULT_COLS {
        feed.push('a');
    }
    feed.push_str("hello");
    parser.process(feed.as_bytes());
    let out = extract_selection(parser.screen(), (0, 0), (1, 5));
    assert!(!out.contains('\n'));
    assert!(out.starts_with('a'));
    assert!(out.ends_with("hello"));
}

#[test]
fn extraction_must_not_start_right_of_the_screen() {
    let parser = Parser::new(3, 10, 0);
    assert!(can_extract(parser.screen(), (0, 10), (2, 0)));
    assert!(!can_extract(parser.screen(), (0, 11), (2, 0)));
    assert!(!can_extract(parser.screen(), (2, 0), (0, 11)));
    assert!(can_extract(parser.screen(), (1, 11), (1, 99)));
    assert_eq!(extract_selection(parser.screen(), (1, 11), (1, 99)), "");
}

#[test]
fn trailing_newlines_are_removed() {
    let mut text = "a\nb\n\n".to_string();
    trim_newlines(&mut text);
    assert_eq!(text, "a\nb");
    let mut text = "\n\n".to_string();
    trim_newlines(&mut text);
    assert_eq!(text, "");
}

#[test]
fn selected_cells_match_the_membership_test() {
    let mut selection = SelectionState::new();
    assert!(selection.cells(5).is_empty());
    selection.start = Some((2, 1));
    assert!(selection.cells(5).is_empty());
    assert!(!selection.is_selected(2, 1));
    selection.end = Some((0, 3));
    let cells = selection.cells(5);
    assert_eq!(
        cells,
        vec![(0, 3), (0, 4), (1, 0), (1, 1), (1, 2), (1, 3), (1, 4), (2, 0), (2, 1)]
    );
    for row in 0..4 {
        for col in 0..5 {
            assert_eq!(cells.contains(&(row, col)), selection.is_selected(row, col));
        }
    }
    assert_eq!(selection.cells(0), vec![(1, 0), (2, 0)]);
    selection.clear();
    assert_eq!(selection.mode, SelectionMode::Idle);
    assert!(!selection.is_selected(1, 1));
}

#[test]
fn selection_modes_have_names() {
    assert_eq!(SelectionMode::Idle.name(), "None");
    assert_eq!(SelectionMode::Line.name(), "Line");
}

#[test]
fn cells_stay_in_reading_order() {
    assert!(comes_before((0, 9), (1, 0)));
    assert!(!comes_before((1, 0), (1, 0)));
    let mut cells = Vec::new();
    for c in [(1, 1), (0, 5), (1, 1), (2, 0), (0, 4), (0, 5)] {
        add_cell(&mut cells, c);
    }
    append_cell(&mut cells, (3, 0));
    assert_eq!(cells, vec![(0, 4), (0, 5), (1, 1), (2, 0), (3, 0)]);
}

#[test]
fn scroll_offsets_are_kept_per_screen() {
    let mut scroll = ScrollState::new();
    scroll.set_offset(false, 7);
    scroll.set_offset(true, 3);
    assert_eq!(scroll.offset(false), 7);
    assert_eq!(scroll.offset(true), 3);
    assert_eq!(scroll.saved_normal_offset_for_alt, None);
}

#[test]
fn wrapped_rows_are_joined_without_a_newline() {
    let mut parser = Parser::new(4, 5, 0);
    parser.process(b"abcdefgh\r\nxy");
    assert!(parser.screen().row_wrapped(0) && !parser.screen().row_wrapped(1));
    assert_eq!(extract_selection(parser.screen(), (0, 1), (2, 1)), "bcdefgh\nxy");
    assert_eq!(extract_selection(parser.screen(), (2, 4), (0, 0)), "abcdefgh\nxy");
    assert_eq!(extract_selection(parser.screen(), (0, 3), (9, 0)), "defgh\nxy");
}
