//! The terminal emulator, reached through the `vt100` crate.
//!
//! The emulator and its screens are opaque here. What the rest of the client
//! knows of a screen are the named observations below, and how the
//! emulator's operations change them.

use crate::client::color::{cell_view, Color};
use crate::text::decimal;
use vstd::prelude::*;
use vt100::Color as VtColor;

verus! {

/// The fewest rows of a screen that can take output: a line that wraps on a
/// screen of one row has no row to go on in.
pub const MIN_ROWS: u16 = 2;

/// The fewest columns of a screen that can take output: the widest character
/// counts as three.
pub const MIN_COLS: u16 = 3;

/// The most columns of a screen that can take output: the tab stop behind
/// the last column has to be a column number.
pub const MAX_COLS: u16 = 65527;

/// A screen of the emulator.
#[verifier::external_type_specification]
#[verifier::external_body]
pub struct ExScreen(vt100::Screen);

/// The emulator: a `vt100::Parser` without callbacks.
#[verifier::external_body]
pub struct Emulator {
    parser: vt100::Parser,
}

/// What one cell of a screen shows.
#[derive(Debug)]
pub struct Cell {
    /// The text of the cell: empty, or one character with its combining marks.
    pub contents: String,
    /// Foreground color.
    pub fg: Color,
    /// Background color.
    pub bg: Color,
    /// Bold text.
    pub bold: bool,
    /// Dim text.
    pub dim: bool,
    /// Italic text.
    pub italic: bool,
    /// Underlined text.
    pub underline: bool,
    /// Inverse video.
    pub inverse: bool,
    /// The cell holds the first half of a wide character.
    pub wide: bool,
    /// The cell holds the second half of a wide character.
    pub wide_continuation: bool,
}

/// The mathematical value of a [`Cell`].
pub struct CellView {
    pub contents: Seq<char>,
    pub fg: Color,
    pub bg: Color,
    pub bold: bool,
    pub dim: bool,
    pub italic: bool,
    pub underline: bool,
    pub inverse: bool,
    pub wide: bool,
    pub wide_continuation: bool,
}

impl View for Cell {
    type V = CellView;

    open spec fn view(&self) -> CellView {
        CellView {
            contents: self.contents@,
            fg: self.fg,
            bg: self.bg,
            bold: self.bold,
            dim: self.dim,
            italic: self.italic,
            underline: self.underline,
            inverse: self.inverse,
            wide: self.wide,
            wide_continuation: self.wide_continuation,
        }
    }
}

/// A cell that nothing was written to.
pub open spec fn blank_cell() -> CellView {
    CellView {
        contents: Seq::empty(),
        fg: Color::Default,
        bg: Color::Default,
        bold: false,
        dim: false,
        italic: false,
        underline: false,
        inverse: false,
        wide: false,
        wide_continuation: false,
    }
}

/// The cells in view, by `(row, col)`, with the scrollback position applied.
pub uninterp spec fn screen_cells(screen: vt100::Screen) -> Map<(u16, u16), CellView>;

/// The size of the screen as `(rows, cols)`.
pub uninterp spec fn screen_size(screen: vt100::Screen) -> (u16, u16);

/// The cursor of the alternate or the normal screen, whichever is active, as
/// `(row, col)`.
pub uninterp spec fn screen_at(screen: vt100::Screen, alternate: bool) -> (u16, u16);

/// Whether the alternate screen is active.
pub uninterp spec fn screen_alternate(screen: vt100::Screen) -> bool;

/// How many rows the view is scrolled back into the history.
pub uninterp spec fn screen_offset(screen: vt100::Screen) -> usize;

/// How many rows of history the normal screen has, whichever is active.
pub uninterp spec fn screen_kept(screen: vt100::Screen) -> usize;

/// The most rows of history that are kept.
pub uninterp spec fn screen_limit(screen: vt100::Screen) -> usize;

/// The rows of the alternate or the normal screen, whichever is active, with
/// the view not scrolled.
pub uninterp spec fn screen_rows(screen: vt100::Screen, alternate: bool) -> Seq<Seq<CellView>>;

/// The text in view from column `from` up to, and not including, column `to`
/// of a row.
pub uninterp spec fn row_text(screen: vt100::Screen, row: u16, from: u16, to: u16) -> Seq<char>;

/// Whether the line in a row in view goes on in the next row.
pub uninterp spec fn row_wrapped(screen: vt100::Screen, row: u16) -> bool;

/// The screen that an emulator shows.
pub uninterp spec fn emulator_screen(emulator: Emulator) -> vt100::Screen;

/// The emulator that has been made with the given size and history limit.
pub uninterp spec fn emulator_made(rows: u16, cols: u16, history: usize) -> Emulator;

/// The emulator after it has been fed `bytes`.
pub uninterp spec fn emulator_fed(emulator: Emulator, bytes: Seq<u8>) -> Emulator;

/// The emulator after its view has been scrolled back by `rows`.
pub uninterp spec fn emulator_scrolled(emulator: Emulator, rows: usize) -> Emulator;

/// The emulator after its screens have been resized.
pub uninterp spec fn emulator_resized(emulator: Emulator, rows: u16, cols: u16) -> Emulator;

/// The emulator with its screen replaced.
pub uninterp spec fn emulator_with(emulator: Emulator, screen: vt100::Screen) -> Emulator;

/// Whether the emulator is between two characters or sequences of its input.
pub uninterp spec fn emulator_idle(emulator: Emulator) -> bool;

/// The cursor of the active screen as `(row, col)`.
pub open spec fn screen_cursor(screen: vt100::Screen) -> (u16, u16) {
    screen_at(screen, screen_alternate(screen))
}

/// How many rows of history the active screen has; the alternate screen keeps
/// none.
pub open spec fn screen_history(screen: vt100::Screen) -> usize {
    if screen_alternate(screen) {
        0
    } else {
        screen_kept(screen)
    }
}

/// A part of a row in view; empty outside of the screen.
pub open spec fn line_text(screen: vt100::Screen, row: u16, from: u16, to: u16) -> Seq<char> {
    if row < screen_size(screen).0 && from < to {
        row_text(screen, row, from, to)
    } else {
        Seq::empty()
    }
}

/// What stands between the text of a row in view and that of the next one: a
/// newline, unless the line goes on.
pub open spec fn line_end(screen: vt100::Screen, row: u16) -> Seq<char> {
    if row < screen_size(screen).0 && !row_wrapped(screen, row) {
        seq!['\n']
    } else {
        Seq::empty()
    }
}

/// The text in view from `start` up to, and not including, `end`: the rest of
/// the first row, the rows between in full, and the beginning of the last.
pub open spec fn screen_text(screen: vt100::Screen, start: (u16, u16), end: (u16, u16)) -> Seq<char>
    decreases end.0 - start.0,
{
    if end.0 < start.0 {
        Seq::empty()
    } else if start.0 == end.0 {
        line_text(screen, start.0, start.1, end.1)
    } else {
        line_text(screen, start.0, start.1, screen_size(screen).1) + line_end(screen, start.0)
            + screen_text(screen, ((start.0 + 1) as u16, 0), end)
    }
}

/// The smaller of two row counts.
pub open spec fn at_most(n: usize, limit: usize) -> usize {
    if n <= limit {
        n
    } else {
        limit
    }
}

/// The cell of a screen of the given size that is closest to `at`.
pub open spec fn pulled_back(at: (u16, u16), rows: u16, cols: u16) -> (u16, u16) {
    (
        if at.0 < rows { at.0 } else { (rows - 1) as u16 },
        if at.1 < cols { at.1 } else { (cols - 1) as u16 },
    )
}

/// The cell of `screen` at `(row, col)`, if there is one in view.
pub open spec fn cell_at(screen: vt100::Screen, row: u16, col: u16) -> Option<CellView> {
    if screen_cells(screen).contains_key((row, col)) {
        Some(screen_cells(screen)[(row, col)])
    } else {
        None
    }
}

/// The cell of `rows` at `(row, col)`, if there is one.
pub open spec fn row_cell(rows: Seq<Seq<CellView>>, row: u16, col: u16) -> Option<CellView> {
    if row < rows.len() && col < rows[row as int].len() {
        Some(rows[row as int][col as int])
    } else {
        None
    }
}

/// Rows of blank cells.
pub open spec fn blank_rows(rows: u16, cols: u16) -> Seq<Seq<CellView>> {
    resized_rows(Seq::empty(), rows, cols)
}

/// `old` cut or filled up with blank cells to the given size.
pub open spec fn resized_rows(old: Seq<Seq<CellView>>, rows: u16, cols: u16) -> Seq<Seq<CellView>> {
    Seq::new(rows as nat, |r: int| resized_row(old, r, cols))
}

/// Row `r` of `old`, cut or filled up with blank cells to `cols` columns.
pub open spec fn resized_row(old: Seq<Seq<CellView>>, r: int, cols: u16) -> Seq<CellView> {
    Seq::new(
        cols as nat,
        |c: int|
            if r < old.len() && c < old[r].len() {
                old[r][c]
            } else {
                blank_cell()
            },
    )
}

/// Whether `rows` are as many rows and columns as `size` says.
pub open spec fn shaped(rows: Seq<Seq<CellView>>, size: (u16, u16)) -> bool {
    &&& rows.len() == size.0
    &&& forall|r: int| 0 <= r < rows.len() ==> (#[trigger] rows[r]).len() == size.1
}

/// Whether the cell in column `c` of a row is not one half of a wide
/// character without the other: the first half stands left of the second.
pub open spec fn cell_whole(row: Seq<CellView>, c: int) -> bool {
    &&& row[c].wide ==> !row[c].wide_continuation && c + 1 < row.len() && row[c
        + 1].wide_continuation
    &&& row[c].wide_continuation ==> 0 < c && row[c - 1].wide
}

/// Whether no wide character of a row has lost a half.
pub open spec fn row_whole(row: Seq<CellView>) -> bool {
    forall|c: int| 0 <= c < row.len() ==> #[trigger] cell_whole(row, c)
}

/// Whether no wide character of the rows has lost a half.
pub open spec fn rows_whole(rows: Seq<Seq<CellView>>) -> bool {
    forall|r: int| 0 <= r < rows.len() ==> row_whole(#[trigger] rows[r])
}

/// Whether no wide character on either screen has lost a half.
pub open spec fn screen_whole(screen: vt100::Screen) -> bool {
    rows_whole(screen_rows(screen, false)) && rows_whole(screen_rows(screen, true))
}

/// Whether the emulator can take output: its screens are neither too small
/// nor too wide, and no wide character on them has lost a half.
pub open spec fn feedable(emulator: Emulator) -> bool {
    let size = screen_size(emulator_screen(emulator));
    &&& MIN_ROWS <= size.0
    &&& MIN_COLS <= size.1 <= MAX_COLS
    &&& screen_whole(emulator_screen(emulator))
}

/// `CSI ? 47 h` or `CSI ? 47 l`: makes the alternate or the normal screen the
/// active one.
pub open spec fn switch_to(alternate: bool) -> Seq<u8> {
    seq![0x1bu8, 0x5b, 0x3f, 0x34, 0x37, if alternate { 0x68u8 } else { 0x6cu8 }]
}

/// `CSI row d` and `CSI col G`: moves the cursor to a cell.
pub open spec fn move_to(row: u16, col: u16) -> Seq<u8> {
    seq![0x1bu8, 0x5b] + decimal((row + 1) as nat) + seq![0x64u8, 0x1b, 0x5b] + decimal(
        (col + 1) as nat,
    ) + seq![0x47u8]
}

/// `CSI @`: inserts a blank cell at the cursor.
pub open spec fn insert_blank() -> Seq<u8> {
    seq![0x1bu8, 0x5b, 0x40]
}

/// What switching to the alternate or the normal screen makes of a screen: an
/// alternate screen without rows gets blank ones, and nothing else changes.
pub open spec fn switched(old: vt100::Screen, new: vt100::Screen, alternate: bool) -> bool {
    &&& screen_alternate(new) == alternate
    &&& screen_rows(new, false) == screen_rows(old, false)
    &&& screen_rows(new, true) == if alternate && screen_rows(old, true).len() == 0 {
        blank_rows(screen_size(old).0, screen_size(old).1)
    } else {
        screen_rows(old, true)
    }
    &&& screen_at(new, false) == screen_at(old, false)
    &&& screen_at(new, true) == screen_at(old, true)
    &&& screen_kept(new) == screen_kept(old)
}

/// What moving the cursor makes of a screen: nothing but the cursor of the
/// active screen changes.
pub open spec fn moved(old: vt100::Screen, new: vt100::Screen, at: (u16, u16)) -> bool {
    &&& screen_alternate(new) == screen_alternate(old)
    &&& screen_rows(new, false) == screen_rows(old, false)
    &&& screen_rows(new, true) == screen_rows(old, true)
    &&& screen_at(new, screen_alternate(old)) == at
    &&& screen_at(new, !screen_alternate(old)) == screen_at(old, !screen_alternate(old))
    &&& screen_kept(new) == screen_kept(old)
}

/// A row with a blank cell inserted in column `c`: the cells from there on
/// move to the right, and the last one is lost. The first half of a wide
/// character that comes to stand in the last column is cleared.
pub open spec fn with_gap(row: Seq<CellView>, c: int) -> Seq<CellView> {
    Seq::new(
        row.len(),
        |k: int|
            if k < c {
                row[k]
            } else if k == c {
                blank_cell()
            } else if k == row.len() - 1 && row[k - 1].wide {
                CellView { contents: Seq::empty(), wide: false, ..row[k - 1] }
            } else {
                row[k - 1]
            },
    )
}

/// Whether the cursor is on a cell, and not between the halves of a wide
/// character.
pub open spec fn between_characters(screen: vt100::Screen) -> bool {
    let (row, col) = screen_cursor(screen);
    let rows = screen_rows(screen, screen_alternate(screen));
    col < screen_size(screen).1 && !rows[row as int][col as int].wide_continuation
}

/// What inserting a blank cell makes of a screen: nothing but the cursor's row
/// of the active screen changes.
pub open spec fn gap_inserted(old: vt100::Screen, new: vt100::Screen) -> bool {
    let active = screen_alternate(old);
    let (row, col) = screen_cursor(old);
    &&& screen_alternate(new) == active
    &&& screen_rows(new, active) == screen_rows(old, active).update(
        row as int,
        with_gap(screen_rows(old, active)[row as int], col as int),
    )
    &&& screen_rows(new, !active) == screen_rows(old, !active)
    &&& screen_at(new, false) == screen_at(old, false)
    &&& screen_at(new, true) == screen_at(old, true)
    &&& screen_kept(new) == screen_kept(old)
}

/// Rows of the grid that is shown: `rows`, or the screen's when that is 0.
pub open spec fn grid_rows(rows: u16, screen: vt100::Screen) -> u16 {
    if rows > 0 {
        rows
    } else {
        screen_size(screen).0
    }
}

/// Columns of the grid that is shown: `cols`, or the screen's when that is 0.
pub open spec fn grid_cols(cols: u16, screen: vt100::Screen) -> u16 {
    if cols > 0 {
        cols
    } else {
        screen_size(screen).1
    }
}

/// `vt100::Screen::cell`, with the cell's accessors: the cell in view at
/// `(row, col)`, or `None` where the view has no such cell. With the view not
/// scrolled that is the cell of the active screen.
#[verifier::external_body]
fn vt_cell(screen: &vt100::Screen, row: u16, col: u16) -> (cell: Option<Cell>)
    ensures
        cell is Some <==> screen_cells(*screen).contains_key((row, col)),
        cell matches Some(c) ==> c@ == screen_cells(*screen)[(row, col)],
        screen_offset(*screen) == 0 ==> cell_view(cell) == row_cell(
            screen_rows(*screen, screen_alternate(*screen)),
            row,
            col,
        ),
{
    screen.cell(row, col).map(|c| Cell {
        contents: c.contents().to_string(),
        fg: match c.fgcolor() {
            VtColor::Default => Color::Default,
            VtColor::Idx(i) => Color::Idx(i),
            VtColor::Rgb(r, g, b) => Color::Rgb(r, g, b),
        },
        bg: match c.bgcolor() {
            VtColor::Default => Color::Default,
            VtColor::Idx(i) => Color::Idx(i),
            VtColor::Rgb(r, g, b) => Color::Rgb(r, g, b),
        },
        bold: c.bold(), dim: c.dim(), italic: c.italic(), underline: c.underline(), inverse: c.inverse(),
        wide: c.is_wide(), wide_continuation: c.is_wide_continuation(),
    })
}

/// `vt100::Screen::size`: the size of the screen as `(rows, cols)`, which is
/// how many rows and columns both screens have; only the alternate screen has
/// no rows before it is made active or resized.
#[verifier::external_body]
pub(crate) fn vt_size(screen: &vt100::Screen) -> (size: (u16, u16))
    ensures
        size == screen_size(*screen),
        shaped(screen_rows(*screen, false), size),
        shaped(screen_rows(*screen, true), size) || (!screen_alternate(*screen) && screen_rows(
            *screen,
            true,
        ).len() == 0),
{
    screen.size()
}

/// `vt100::Screen::cursor_position`: the cursor of the active screen as
/// `(row, col)`. It is in one of the screen's rows, and right behind the last
/// column at most.
#[verifier::external_body]
pub(crate) fn vt_cursor(screen: &vt100::Screen) -> (cursor: (u16, u16))
    ensures
        cursor == screen_at(*screen, screen_alternate(*screen)),
        cursor.0 < screen_size(*screen).0,
        cursor.1 <= screen_size(*screen).1,
{
    screen.cursor_position()
}

/// `vt100::Screen::alternate_screen`: whether the alternate screen is
/// active.
#[verifier::external_body]
pub(crate) fn vt_alternate(screen: &vt100::Screen) -> (alternate: bool)
    ensures
        alternate == screen_alternate(*screen),
{
    screen.alternate_screen()
}

/// `vt100::Screen::scrollback`: how far the view is scrolled back, which is
/// never further than the history reaches, which in turn never exceeds the
/// limit that the emulator was made with.
#[verifier::external_body]
pub(crate) fn vt_scrollback(screen: &vt100::Screen) -> (rows: usize)
    ensures
        rows == screen_offset(*screen),
        rows <= screen_history(*screen) <= screen_limit(*screen),
{
    screen.scrollback()
}

/// `vt100::Screen::contents_between`: the text in view from `start` up to,
/// and not including, `end`; empty when `end` does not come after `start`. The
/// text of a row is followed by a newline, unless `vt100::Screen::row_wrapped`
/// says that its line goes on in the next row.
/// With `start` on an earlier row than `end` the emulator subtracts the start
/// column from the number of columns, so it must not lie beyond them.
#[verifier::external_body]
pub(crate) fn vt_contents_between(
    screen: &vt100::Screen,
    start: (u16, u16),
    end: (u16, u16),
) -> (text: String)
    requires
        start.0 < end.0 ==> start.1 <= screen_size(*screen).1,
    ensures
        text@ == screen_text(*screen, start, end),
        start.0 == end.0 < screen_size(*screen).0 && start.1 < end.1 ==> text@ == row_text(
            *screen,
            start.0,
            start.1,
            end.1,
        ),
        start.0 < end.0 && start.0 < screen_size(*screen).0 && row_wrapped(*screen, start.0)
            ==> text@ == line_text(*screen, start.0, start.1, screen_size(*screen).1) + screen_text(
            *screen,
            ((start.0 + 1) as u16, 0),
            end,
        ),
{
    screen.contents_between(start.0, start.1, end.0, end.1)
}

/// `vt100::Screen::clone`: an equal screen.
#[verifier::external_body]
pub(crate) fn vt_clone(screen: &vt100::Screen) -> (copy: vt100::Screen)
    ensures
        copy == *screen,
{
    screen.clone()
}

/// `vt100::Parser::new`: an emulator whose normal screen is active, blank,
/// not scrolled and without history, and whose cursor is at the top left. The
/// alternate screen has no rows until it is made active or resized.
#[verifier::external_body]
pub(crate) fn vt_new(rows: u16, cols: u16, history: usize) -> (emulator: Emulator)
    requires
        rows >= 1,
        cols >= 1,
    ensures
        emulator == emulator_made(rows, cols, history),
        screen_size(emulator_screen(emulator)) == (rows, cols),
        screen_at(emulator_screen(emulator), false) == (0u16, 0u16),
        screen_at(emulator_screen(emulator), true) == (0u16, 0u16),
        !screen_alternate(emulator_screen(emulator)),
        screen_offset(emulator_screen(emulator)) == 0,
        screen_kept(emulator_screen(emulator)) == 0,
        screen_limit(emulator_screen(emulator)) == history,
        screen_cells(emulator_screen(emulator)) == Map::new(
            |at: (u16, u16)| at.0 < rows && at.1 < cols,
            |at: (u16, u16)| blank_cell(),
        ),
        screen_rows(emulator_screen(emulator), false) == blank_rows(rows, cols),
        screen_rows(emulator_screen(emulator), true) == Seq::<Seq<CellView>>::empty(),
        emulator_idle(emulator),
{
    Emulator { parser: vt100::Parser::new(rows, cols, history) }
}

/// `vt100::Parser::screen`: the screen that the emulator shows.
#[verifier::external_body]
pub(crate) fn vt_screen(emulator: &Emulator) -> (screen: &vt100::Screen)
    ensures
        *screen == emulator_screen(*emulator),
{
    emulator.parser.screen()
}

/// `vt100::Parser::screen_mut`, assigned to: replaces the screen. What the
/// emulator knows of unfinished input stays.
#[verifier::external_body]
pub(crate) fn vt_replace_screen(emulator: &mut Emulator, screen: vt100::Screen)
    ensures
        *final(emulator) == emulator_with(*old(emulator), screen),
        emulator_screen(*final(emulator)) == screen,
        emulator_idle(*final(emulator)) == emulator_idle(*old(emulator)),
{
    *emulator.parser.screen_mut() = screen
}

/// `vt100::Parser::process`: feeds bytes to the emulator, which never changes
/// the size of its screens or the limit of its history, and which never
/// leaves half of a wide character behind where there was none.
///
/// Of the sequences that switch between the screens, move the cursor and
/// insert a blank cell it is known what they do when they are fed by
/// themselves, between two sequences. The blank cell must not come between
/// the halves of a wide character.
#[verifier::external_body]
pub(crate) fn vt_process(emulator: &mut Emulator, bytes: &[u8])
    requires
        feedable(*old(emulator)),
    ensures
        *final(emulator) == emulator_fed(*old(emulator), bytes@),
        screen_size(emulator_screen(*final(emulator))) == screen_size(
            emulator_screen(*old(emulator)),
        ),
        screen_limit(emulator_screen(*final(emulator))) == screen_limit(
            emulator_screen(*old(emulator)),
        ),
        screen_whole(emulator_screen(*final(emulator))),
        forall|alternate: bool|
            emulator_idle(*old(emulator)) && bytes@ == #[trigger] switch_to(alternate) ==> {
                &&& emulator_idle(*final(emulator))
                &&& switched(
                    emulator_screen(*old(emulator)),
                    emulator_screen(*final(emulator)),
                    alternate,
                )
            },
        forall|row: u16, col: u16|
            emulator_idle(*old(emulator)) && bytes@ == #[trigger] move_to(row, col) && row
                < screen_size(emulator_screen(*old(emulator))).0 && col < screen_size(
                emulator_screen(*old(emulator)),
            ).1 ==> {
                &&& emulator_idle(*final(emulator))
                &&& moved(
                    emulator_screen(*old(emulator)),
                    emulator_screen(*final(emulator)),
                    (row, col),
                )
            },
        emulator_idle(*old(emulator)) && bytes@ == insert_blank() && between_characters(
            emulator_screen(*old(emulator)),
        ) ==> {
            &&& emulator_idle(*final(emulator))
            &&& gap_inserted(emulator_screen(*old(emulator)), emulator_screen(*final(emulator)))
        },
{
    emulator.parser.process(bytes)
}

/// `vt100::Screen::set_scrollback` on the emulator's screen: scrolls the view
/// back by `rows`, or by the whole history when that is less. The last call
/// decides, and nothing but the view changes.
#[verifier::external_body]
pub(crate) fn vt_set_scrollback(emulator: &mut Emulator, rows: usize)
    ensures
        *final(emulator) == emulator_scrolled(*old(emulator), rows),
        screen_offset(emulator_screen(*final(emulator))) == at_most(
            rows,
            screen_history(emulator_screen(*old(emulator))),
        ),
        rows == screen_offset(emulator_screen(*old(emulator))) ==> *final(emulator) == *old(
            emulator,
        ),
        forall|n: usize|
            #[trigger] emulator_scrolled(*final(emulator), n) == emulator_scrolled(
                *old(emulator),
                n,
            ),
        screen_kept(emulator_screen(*final(emulator))) == screen_kept(
            emulator_screen(*old(emulator)),
        ),
        screen_size(emulator_screen(*final(emulator))) == screen_size(
            emulator_screen(*old(emulator)),
        ),
        screen_at(emulator_screen(*final(emulator)), false) == screen_at(
            emulator_screen(*old(emulator)),
            false,
        ),
        screen_at(emulator_screen(*final(emulator)), true) == screen_at(
            emulator_screen(*old(emulator)),
            true,
        ),
        screen_alternate(emulator_screen(*final(emulator))) == screen_alternate(
            emulator_screen(*old(emulator)),
        ),
        screen_limit(emulator_screen(*final(emulator))) == screen_limit(
            emulator_screen(*old(emulator)),
        ),
        screen_rows(emulator_screen(*final(emulator)), false) == screen_rows(
            emulator_screen(*old(emulator)),
            false,
        ),
        screen_rows(emulator_screen(*final(emulator)), true) == screen_rows(
            emulator_screen(*old(emulator)),
            true,
        ),
        emulator_idle(*final(emulator)) == emulator_idle(*old(emulator)),
{
    emulator.parser.screen_mut().set_scrollback(rows)
}

/// `vt100::Screen::set_size` on the emulator's screen: cuts or fills up both
/// screens and pulls their cursors back onto them. The history, the view's
/// position in it and the choice of screen stay.
#[verifier::external_body]
pub(crate) fn vt_set_size(emulator: &mut Emulator, rows: u16, cols: u16)
    requires
        rows >= 1,
        cols >= 1,
    ensures
        *final(emulator) == emulator_resized(*old(emulator), rows, cols),
        screen_size(emulator_screen(*final(emulator))) == (rows, cols),
        screen_at(emulator_screen(*final(emulator)), false) == pulled_back(
            screen_at(emulator_screen(*old(emulator)), false),
            rows,
            cols,
        ),
        screen_at(emulator_screen(*final(emulator)), true) == pulled_back(
            screen_at(emulator_screen(*old(emulator)), true),
            rows,
            cols,
        ),
        screen_offset(emulator_screen(*final(emulator))) == screen_offset(
            emulator_screen(*old(emulator)),
        ),
        screen_kept(emulator_screen(*final(emulator))) == screen_kept(
            emulator_screen(*old(emulator)),
        ),
        screen_alternate(emulator_screen(*final(emulator))) == screen_alternate(
            emulator_screen(*old(emulator)),
        ),
        screen_limit(emulator_screen(*final(emulator))) == screen_limit(
            emulator_screen(*old(emulator)),
        ),
        screen_rows(emulator_screen(*final(emulator)), false) == resized_rows(
            screen_rows(emulator_screen(*old(emulator)), false),
            rows,
            cols,
        ),
        screen_rows(emulator_screen(*final(emulator)), true) == resized_rows(
            screen_rows(emulator_screen(*old(emulator)), true),
            rows,
            cols,
        ),
        emulator_idle(*final(emulator)) == emulator_idle(*old(emulator)),
{
    emulator.parser.screen_mut().set_size(rows, cols)
}

/// Reads the cell in view at `(row, col)`.
pub fn read_cell(screen: &vt100::Screen, row: u16, col: u16) -> (cell: Option<Cell>)
    ensures
        cell_view(cell) == cell_at(*screen, row, col),
        screen_offset(*screen) == 0 ==> cell_view(cell) == row_cell(
            screen_rows(*screen, screen_alternate(*screen)),
            row,
            col,
        ),
{
    vt_cell(screen, row, col)
}

/// Rows of the grid that is shown.
pub fn shown_rows(rows: u16, screen: &vt100::Screen) -> (shown: u16)
    ensures
        shown == grid_rows(rows, *screen),
{
    if rows > 0 {
        rows
    } else {
        vt_size(screen).0
    }
}

/// Columns of the grid that is shown.
pub fn shown_cols(cols: u16, screen: &vt100::Screen) -> (shown: u16)
    ensures
        shown == grid_cols(cols, *screen),
{
    if cols > 0 {
        cols
    } else {
        vt_size(screen).1
    }
}

/// The painted grid has the rows and columns that fit on the canvas, and those
/// of the screen where that is not known.
pub proof fn lemma_the_grid_fills_the_canvas(rows: u16, cols: u16, screen: vt100::Screen)
    ensures
        rows != 0 ==> grid_rows(rows, screen) == rows,
        cols != 0 ==> grid_cols(cols, screen) == cols,
        (grid_rows(0, screen), grid_cols(0, screen)) == screen_size(screen),
{
}

} // verus!
