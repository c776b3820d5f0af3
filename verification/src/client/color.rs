//! Colors: the xterm palette, cell colors and the cursor / selection
//! overrides shared by the two renderers.

use crate::client::screen::{Cell, CellView};
use crate::text::{hex, hex_value, lemma_hex_is_read_back, push_hex};
use vstd::prelude::*;

verus! {

/// Default foreground color (light gray).
pub const DEFAULT_FG: u32 = 0xf0f0f0;

/// Default background color (dark gray).
pub const DEFAULT_BG: u32 = 0x2b2b2b;

/// Text color of a selected cell (black over the original foreground).
pub const SELECTION_FG: u32 = 0x000000;

/// The color of a cell as the terminal program set it.
#[derive(Clone, Copy, PartialEq, Eq, Structural, Debug)]
pub enum Color {
    /// The terminal's default color.
    Default,
    /// An index into the 256 color palette.
    Idx(u8),
    /// A direct color.
    Rgb(u8, u8, u8),
}

/// Three color channels packed as `0xRRGGBB`.
pub open spec fn rgb(r: int, g: int, b: int) -> int {
    r * 0x10000 + g * 0x100 + b
}

/// The 16 base colors of the xterm default theme.
pub open spec fn ansi_colors() -> Seq<u32> {
    seq![
        0x000000u32, 0xCD0000u32, 0x00CD00u32, 0xCDCD00u32,
        0x0000EEu32, 0xCD00CDu32, 0x00CDCDu32, 0xE5E5E5u32,
        0x7F7F7Fu32, 0xFF0000u32, 0x00FF00u32, 0xFFFF00u32,
        0x5C5CFFu32, 0xFF00FFu32, 0x00FFFFu32, 0xFFFFFFu32,
    ]
}

/// Brightness of step `c` (0 to 5) along an axis of the 6x6x6 color cube.
pub open spec fn cube_step(c: int) -> int {
    if c == 0 {
        0
    } else {
        55 + c * 40
    }
}

/// The xterm 256 color palette: 16 base colors, a 6x6x6 color cube and a
/// 24 step gray ramp.
pub open spec fn palette(idx: u8) -> int {
    if idx < 16 {
        ansi_colors()[idx as int] as int
    } else if idx < 232 {
        let n = idx - 16;
        rgb(cube_step(n / 36), cube_step((n / 6) % 6), cube_step(n % 6))
    } else {
        let v = 8 + (idx - 232) * 10;
        rgb(v, v, v)
    }
}

/// Packs three channels as `0xRRGGBB`.
fn pack_rgb(r: u8, g: u8, b: u8) -> (packed: u32)
    ensures
        packed == rgb(r as int, g as int, b as int),
{
    let (r, g, b): (u32, u32, u32) = (r as u32, g as u32, b as u32);
    assert((r << 16) | (g << 8) | b == r * 0x10000 + g * 0x100 + b) by (bit_vector)
        requires
            r < 256,
            g < 256,
            b < 256,
    ;
    (r << 16) | (g << 8) | b
}

/// Brightness of one axis of the color cube.
fn cube_level(c: u8) -> (v: u8)
    requires
        c < 6,
    ensures
        v == cube_step(c as int),
{
    if c == 0 {
        0
    } else {
        55 + c * 40
    }
}

/// Converts a palette index to its xterm RGB value.
pub fn xterm_palette(idx: u8) -> (color: u32)
    ensures
        color == palette(idx),
        color <= 0xffffff,
{
    if idx < 16 {
        let ansi: [u32; 16] = [
            0x000000, 0xCD0000, 0x00CD00, 0xCDCD00,
            0x0000EE, 0xCD00CD, 0x00CDCD, 0xE5E5E5,
            0x7F7F7F, 0xFF0000, 0x00FF00, 0xFFFF00,
            0x5C5CFF, 0xFF00FF, 0x00FFFF, 0xFFFFFF,
        ];
        assert(ansi@ =~= ansi_colors());
        ansi[idx as usize]
    } else if idx < 232 {
        let n: u8 = idx - 16;
        pack_rgb(cube_level(n / 36), cube_level((n / 6) % 6), cube_level(n % 6))
    } else {
        let v: u8 = 8 + (idx - 232) * 10;
        pack_rgb(v, v, v)
    }
}

/// The RGB value of `color`, with `default` for the default color.
pub open spec fn resolved(color: Color, default: u32) -> int {
    match color {
        Color::Default => default as int,
        Color::Idx(i) => palette(i),
        Color::Rgb(r, g, b) => rgb(r as int, g as int, b as int),
    }
}

/// Converts a color to its RGB value, using `default` for the default color.
pub fn color_to_rgb(color: Color, default: u32) -> (value: u32)
    ensures
        value == resolved(color, default),
{
    match color {
        Color::Default => default,
        Color::Idx(i) => xterm_palette(i),
        Color::Rgb(r, g, b) => pack_rgb(r, g, b),
    }
}

/// The RGB foreground of a cell: bold text in one of the 8 base colors is
/// drawn in the matching bright color, everything else in its own color.
pub open spec fn foreground(cell: CellView, default: u32) -> int {
    match cell.fg {
        Color::Idx(i) => if cell.bold && i < 8 {
            palette((i + 8) as u8)
        } else {
            palette(i)
        },
        _ => resolved(cell.fg, default),
    }
}

/// Foreground RGB of a cell, with bold base colors drawn bright.
pub fn cell_fg_rgb(cell: &Cell, default: u32) -> (value: u32)
    ensures
        value == foreground(cell@, default),
{
    if cell.bold {
        if let Color::Idx(i) = cell.fg {
            if i < 8 {
                return xterm_palette(i + 8);
            }
        }
    }
    color_to_rgb(cell.fg, default)
}

/// How the cursor or the selection alters the colors of a cell.
#[derive(Clone, Copy, PartialEq, Eq, Structural, Debug)]
pub enum CellOverride {
    /// The cell's own colors.
    Normal,
    /// The cell is part of the selection.
    Selected,
    /// The block cursor is on the cell.
    Cursor,
}

/// The cell's own `(fg, bg)`, or the defaults where there is no cell.
pub open spec fn base_colors(cell: Option<CellView>, default_fg: u32, default_bg: u32) -> (int, int) {
    match cell {
        Some(c) => (foreground(c, default_fg), resolved(c.bg, default_bg)),
        None => (default_fg as int, default_bg as int),
    }
}

/// The `(fg, bg)` a cell is painted with: the cursor swaps the two, the
/// selection paints black on the original foreground.
pub open spec fn visual(
    cell: Option<CellView>,
    default_fg: u32,
    default_bg: u32,
    override_: CellOverride,
) -> (int, int) {
    let (fg, bg) = base_colors(cell, default_fg, default_bg);
    match override_ {
        CellOverride::Normal => (fg, bg),
        CellOverride::Selected => (SELECTION_FG as int, fg),
        CellOverride::Cursor => (bg, fg),
    }
}

/// The view of an optional cell.
pub open spec fn cell_view(cell: Option<Cell>) -> Option<CellView> {
    match cell {
        Some(c) => Some(c@),
        None => None,
    }
}

/// The `(fg, bg)` colors of a cell after the cursor / selection override.
pub fn cell_visual(
    cell: &Option<Cell>,
    default_fg: u32,
    default_bg: u32,
    override_: CellOverride,
) -> (colors: (u32, u32))
    ensures
        (colors.0 as int, colors.1 as int) == visual(
            cell_view(*cell),
            default_fg,
            default_bg,
            override_,
        ),
{
    let (fg0, bg0): (u32, u32) = match cell {
        Some(c) => (cell_fg_rgb(c, default_fg), color_to_rgb(c.bg, default_bg)),
        None => (default_fg, default_bg),
    };
    match override_ {
        CellOverride::Normal => (fg0, bg0),
        CellOverride::Selected => (SELECTION_FG, fg0),
        CellOverride::Cursor => (bg0, fg0),
    }
}

/// The red, green and blue channel of a color.
pub fn rgb_channels(color: u32) -> (channels: (u8, u8, u8))
    ensures
        channels.0 == color / 0x10000 % 0x100,
        channels.1 == color / 0x100 % 0x100,
        channels.2 == color % 0x100,
{
    let r: u32 = (color >> 16) & 0xff;
    let g: u32 = (color >> 8) & 0xff;
    let b: u32 = color & 0xff;
    assert(((color >> 16) & 0xff) == color / 0x10000 % 0x100) by (bit_vector);
    assert(((color >> 8) & 0xff) == color / 0x100 % 0x100) by (bit_vector);
    assert((color & 0xff) == color % 0x100) by (bit_vector);
    (r as u8, g as u8, b as u8)
}

/// Splitting a packed color gives back its channels.
pub proof fn lemma_channels_are_read_back(r: u8, g: u8, b: u8)
    ensures
        rgb(r as int, g as int, b as int) / 0x10000 % 0x100 == r,
        rgb(r as int, g as int, b as int) / 0x100 % 0x100 == g,
        rgb(r as int, g as int, b as int) % 0x100 == b,
{
}

/// The CSS spelling of a color: `#` and at least six hexadecimal digits.
pub open spec fn css(color: u32) -> Seq<char> {
    seq!['#'] + hex(color as nat, 6)
}

/// Formats a `0xRRGGBB` color as a CSS `#rrggbb` string.
pub fn css_color(color: u32) -> (text: String)
    ensures
        text@ == css(color),
{
    let mut text: String = String::new();
    text.push('#');
    push_hex(&mut text, color, 6);
    assert(text@ =~= css(color));
    text
}

/// The color cube: the color with red, green and blue steps `r`, `g` and `b`
/// stands at `16 + 36 r + 6 g + b`, and the steps are 0, 95, 135, 175, 215 and
/// 255.
pub proof fn lemma_color_cube(r: int, g: int, b: int)
    requires
        0 <= r < 6,
        0 <= g < 6,
        0 <= b < 6,
    ensures
        ({
            let steps = seq![0int, 95, 135, 175, 215, 255];
            palette((16 + 36 * r + 6 * g + b) as u8) == steps[r] * 0x10000 + steps[g] * 0x100
                + steps[b]
        }),
{
    let n = 36 * r + 6 * g + b;
    assert(n / 36 == r && n / 6 % 6 == g && n % 6 == b);
}

/// The gray ramp: from 8 up in steps of 10, with the three channels alike.
pub proof fn lemma_gray_ramp(i: int)
    requires
        0 <= i < 24,
    ensures
        palette((232 + i) as u8) == 0x010101 * (8 + 10 * i),
{
}

/// The base colors: the three lowest binary digits of the index say whether
/// red, green and blue are in the color, at `0xcd` for the first eight and at
/// full strength for the bright ones. The grays and the two blues are shades
/// of their own.
pub proof fn lemma_base_colors_are_mixed(i: int)
    requires
        0 <= i < 16,
    ensures
        ({
            let mixed = (i % 2) * 0x10000 + (i / 2 % 2) * 0x100 + (i / 4 % 2);
            palette(i as u8) == if i == 4 {
                0x0000ee
            } else if i == 7 {
                0xe5 * mixed
            } else if i == 8 {
                0x7f7f7f
            } else if i == 12 {
                0x5c5cff
            } else if i < 8 {
                0xcd * mixed
            } else {
                0xff * mixed
            }
        }),
{
}

/// Bold text in one of the 8 base colors is as bright as the color 8 above;
/// bold changes no other color. Nothing but the color and the weight of a cell
/// matters for its foreground.
pub proof fn lemma_bold_brightens_base_colors_only(cell: CellView, other: CellView, default: u32, i: u8)
    ensures
        cell.fg == Color::Idx(i) && cell.bold && i < 8 ==> foreground(cell, default) == palette(
            (i + 8) as u8,
        ),
        cell.fg == Color::Idx(i) && !(cell.bold && i < 8) ==> foreground(cell, default) == palette(i),
        cell.fg == other.fg && !(cell.fg matches Color::Idx(k) && k < 8) ==> foreground(cell, default)
            == foreground(other, default),
        cell.fg == other.fg && cell.bold == other.bold ==> foreground(cell, default) == foreground(
            other,
            default,
        ),
        cell.fg == Color::Default ==> foreground(cell, default) == default,
{
}

/// A direct color is shown as it is: its channels can be read back from its
/// RGB value, as a foreground and as a background.
pub proof fn lemma_direct_colors_are_shown(cell: CellView, r: u8, g: u8, b: u8, default: u32)
    ensures
        ({
            let color = resolved(Color::Rgb(r, g, b), default);
            &&& color / 0x10000 == r && color / 0x100 % 0x100 == g && color % 0x100 == b
            &&& cell.fg == Color::Rgb(r, g, b) ==> foreground(cell, default) == color
        }),
        resolved(Color::Default, default) == default,
        forall|i: u8| resolved(Color::Idx(i), default) == #[trigger] palette(i),
{
}

/// A selected cell is black on its own foreground color, the cursor swaps the
/// cell's own colors, and where there is no cell the defaults stand for them.
pub proof fn lemma_overrides_start_from_the_own_colors(cell: Option<CellView>, default_fg: u32, default_bg: u32)
    ensures
        ({
            let own = visual(cell, default_fg, default_bg, CellOverride::Normal);
            &&& visual(cell, default_fg, default_bg, CellOverride::Selected) == (0int, own.0)
            &&& visual(cell, default_fg, default_bg, CellOverride::Cursor) == (own.1, own.0)
            &&& cell is None ==> own == (default_fg as int, default_bg as int)
            &&& cell matches Some(c) ==> own == (
                foreground(c, default_fg),
                resolved(c.bg, default_bg),
            )
        }),
{
}

/// A CSS color is `#` and digits that stand for the color: six of them for
/// every color of three channels.
pub proof fn lemma_css_colors_are_read_back(color: u32)
    ensures
        css(color)[0] == '#',
        hex_value(css(color).skip(1)) == color,
        css(color).len() >= 7,
        color <= 0xffffff ==> css(color).len() == 7,
{
    lemma_hex_is_read_back(color as nat, 6);
    assert(css(color).skip(1) =~= hex(color as nat, 6));
    reveal_with_fuel(hex, 8);
}

} // verus!
