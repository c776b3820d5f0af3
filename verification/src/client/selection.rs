//! Text selection: which cells it covers and what text it holds.

use crate::client::cells::{append_cell, before, in_reading_order};
use crate::client::screen::{
    line_end, line_text, row_wrapped, screen_size, screen_text, vt_contents_between, vt_size,
};
use vstd::prelude::*;

verus! {

/// Selection mode.
#[derive(Clone, Copy, PartialEq, Eq, Structural, Debug)]
pub enum SelectionMode {
    /// No selection is active.
    Idle,
    /// A selection that follows the flow of the text.
    Line,
}

impl SelectionMode {
    /// The name of the mode.
    pub open spec fn label(self) -> Seq<char> {
        match self {
            SelectionMode::Idle => "None"@,
            SelectionMode::Line => "Line"@,
        }
    }

    /// The name under which the mode is reported.
    pub fn name(&self) -> (text: String)
        ensures
            text@ == self.label(),
    {
        match self {
            SelectionMode::Idle => "None".to_owned(),
            SelectionMode::Line => "Line".to_owned(),
        }
    }
}

/// The two ends of a selection in reading order.
pub open spec fn ordered(a: (u16, u16), b: (u16, u16)) -> ((u16, u16), (u16, u16)) {
    if before(b, a) {
        (b, a)
    } else {
        (a, b)
    }
}

/// Puts the two ends of a selection in reading order.
pub fn normalized_bounds(start: (u16, u16), end: (u16, u16)) -> (bounds: (
    (u16, u16),
    (u16, u16),
))
    ensures
        bounds == ordered(start, end),
{
    if start.0 < end.0 || (start.0 == end.0 && start.1 <= end.1) {
        (start, end)
    } else {
        (end, start)
    }
}

/// Whether a cell lies between the two ends of a selection, both included,
/// in reading order.
pub open spec fn selects(a: (u16, u16), b: (u16, u16), cell: (u16, u16)) -> bool {
    let (first, last) = ordered(a, b);
    !before(cell, first) && !before(last, cell)
}

/// Whether the cell at (`row`, `col`) lies inside the selection between
/// `start` and `end`, which follows the flow of the text: the first row is
/// selected from its start column on, the last row up to its end column, and
/// the rows between them in full.
pub fn cell_is_selected(start: (u16, u16), end: (u16, u16), row: u16, col: u16) -> (selected: bool)
    ensures
        selected == selects(start, end, (row, col)),
{
    let ((sr, sc), (er, ec)): ((u16, u16), (u16, u16)) = normalized_bounds(start, end);
    if sr == er {
        return row == sr && col >= sc && col <= ec;
    }
    if row == sr {
        col >= sc
    } else if row == er {
        col <= ec
    } else {
        row > sr && row < er
    }
}

/// `text` without the newlines at its end.
pub open spec fn without_trailing_newlines(text: Seq<char>) -> Seq<char>
    decreases text.len(),
{
    if text.len() > 0 && text.last() == '\n' {
        without_trailing_newlines(text.drop_last())
    } else {
        text
    }
}

/// The column after `col`, as far as there is one.
pub open spec fn column_after(col: u16) -> u16 {
    if col == u16::MAX {
        col
    } else {
        (col + 1) as u16
    }
}

/// The text of a selection: what is in view from its first to its last cell,
/// both included, without trailing newlines.
pub open spec fn selection_text(screen: vt100::Screen, a: (u16, u16), b: (u16, u16)) -> Seq<char> {
    let (first, last) = ordered(a, b);
    without_trailing_newlines(screen_text(screen, first, (last.0, column_after(last.1))))
}

/// Whether the emulator can read the text between the two cells: a selection
/// over several rows must not start right of the screen.
pub open spec fn extractable(screen: vt100::Screen, a: (u16, u16), b: (u16, u16)) -> bool {
    let (first, last) = ordered(a, b);
    first.0 < last.0 ==> first.1 <= screen_size(screen).1
}

/// Whether the text between the two cells can be extracted.
pub fn can_extract(screen: &vt100::Screen, start: (u16, u16), end: (u16, u16)) -> (possible: bool)
    ensures
        possible == extractable(*screen, start, end),
{
    let (first, last): ((u16, u16), (u16, u16)) = normalized_bounds(start, end);
    first.0 >= last.0 || first.1 <= vt_size(screen).1
}

/// Removes the newlines at the end of `text`.
pub fn trim_newlines(text: &mut String)
    ensures
        final(text)@ == without_trailing_newlines(old(text)@),
{
    let mut more: bool = true;
    while more
        invariant
            without_trailing_newlines(text@) == without_trailing_newlines(old(text)@),
            !more ==> text@.len() == 0 || text@.last() != '\n',
        decreases text@.len() + if more { 1int } else { 0int },
    {
        let ghost whole = text@;
        match text.pop() {
            Some(c) => {
                if c != '\n' {
                    text.push(c);
                    assert(text@ =~= whole);
                    more = false;
                }
            },
            None => {
                more = false;
            },
        }
    }
}

/// Extracts the text of a selection. Both ends are included, as in
/// [`cell_is_selected`]; rows are joined by newlines except where the
/// terminal wrapped the line, and trailing newlines are removed.
pub fn extract_selection(screen: &vt100::Screen, start: (u16, u16), end: (u16, u16)) -> (text: String)
    requires
        extractable(*screen, start, end),
    ensures
        text@ == selection_text(*screen, start, end),
{
    let (first, last): ((u16, u16), (u16, u16)) = normalized_bounds(start, end);
    let mut out: String = vt_contents_between(screen, first, (last.0, last.1.saturating_add(1)));
    trim_newlines(&mut out);
    out
}

/// The active selection.
#[derive(Clone, Copy, Debug)]
pub struct SelectionState {
    /// Selection mode.
    pub mode: SelectionMode,
    /// The cell where the selection was started.
    pub start: Option<(u16, u16)>,
    /// The cell where the selection ends.
    pub end: Option<(u16, u16)>,
}

/// Whether `cell` is covered by the selection; one that has no start or no
/// end covers nothing.
pub open spec fn covers(selection: SelectionState, cell: (u16, u16)) -> bool {
    match (selection.start, selection.end) {
        (Some(a), Some(b)) => selects(a, b, cell),
        _ => false,
    }
}

impl SelectionState {
    /// The state without a selection.
    pub open spec fn empty() -> SelectionState {
        SelectionState { mode: SelectionMode::Idle, start: None, end: None }
    }

    /// Creates the state without a selection.
    pub fn new() -> (state: Self)
        ensures
            state == SelectionState::empty(),
    {
        SelectionState { mode: SelectionMode::Idle, start: None, end: None }
    }

    /// Drops the selection.
    pub fn clear(&mut self)
        ensures
            *final(self) == SelectionState::empty(),
    {
        self.start = None;
        self.end = None;
        self.mode = SelectionMode::Idle;
    }

    /// Whether the cell at (`row`, `col`) is selected.
    pub fn is_selected(&self, row: u16, col: u16) -> (selected: bool)
        ensures
            selected == covers(*self, (row, col)),
    {
        match (self.start, self.end) {
            (Some(a), Some(b)) => cell_is_selected(a, b, row, col),
            _ => false,
        }
    }

    /// The selected cells in the first `cols` columns (at least one), in
    /// reading order.
    pub fn cells(&self, cols: u16) -> (cells: Vec<(u16, u16)>)
        ensures
            in_reading_order(cells@),
            forall|cell: (u16, u16)| #[trigger]
                cells@.contains(cell) <==> covers(*self, cell) && (cell.1 < cols || cell.1 == 0),
    {
        let mut cells: Vec<(u16, u16)> = Vec::new();
        let (a, b): ((u16, u16), (u16, u16)) = match (self.start, self.end) {
            (Some(a), Some(b)) => (a, b),
            _ => return cells,
        };
        let ((sr, sc), (er, ec)): ((u16, u16), (u16, u16)) = normalized_bounds(a, b);
        let width: u16 = if cols == 0 {
            1
        } else {
            cols
        };
        let mut row: u32 = sr as u32;
        while row <= er as u32
            invariant
                width == if cols == 0 { 1u16 } else { cols },
                ((sr, sc), (er, ec)) == ordered(a, b),
                self.start == Some(a),
                self.end == Some(b),
                sr <= row <= er + 1,
                in_reading_order(cells@),
                forall|cell: (u16, u16)| #[trigger]
                    cells@.contains(cell) <==> selects(a, b, cell) && cell.1 < width && cell.0 < row,
            decreases er + 1 - row,
        {
            let c0: u16 = if row == sr as u32 {
                sc
            } else {
                0
            };
            let c1: u16 = if row == er as u32 && ec < width {
                ec
            } else {
                width - 1
            };
            let mut col: u32 = c0 as u32;
            let ghost done = cells@;
            while col <= c1 as u32
                invariant
                    width == if cols == 0 { 1u16 } else { cols },
                    c0 <= col,
                    c0 <= c1 ==> col <= c1 + 1,
                    c1 < width,
                    row <= er,
                    in_reading_order(cells@),
                    forall|cell: (u16, u16)| #[trigger] cells@.contains(cell) ==> cell.0 < row || (
                    cell.0 == row && cell.1 < col),
                    forall|cell: (u16, u16)| #[trigger]
                        cells@.contains(cell) <==> done.contains(cell) || (cell.0 == row && c0
                            <= cell.1 && cell.1 < col && cell.1 <= c1),
                decreases c1 + 1 - col,
            {
                append_cell(&mut cells, (row as u16, col as u16));
                col += 1;
            }
            row += 1;
        }
        cells
    }
}

/// The direction in which a selection was made does not matter: the same
/// cells are covered and the same text is extracted.
pub proof fn lemma_selection_has_no_direction(
    screen: vt100::Screen,
    a: (u16, u16),
    b: (u16, u16),
    cell: (u16, u16),
)
    ensures
        ordered(a, b) == ordered(b, a),
        selects(a, b, cell) == selects(b, a, cell),
        selection_text(screen, a, b) == selection_text(screen, b, a),
        extractable(screen, a, b) == extractable(screen, b, a),
{
}

/// A selection always covers both of its ends.
pub proof fn lemma_selection_covers_its_ends(a: (u16, u16), b: (u16, u16))
    ensures
        selects(a, b, a),
        selects(a, b, b),
{
}

/// The text in view falls apart at the end of every row that it crosses. Rows
/// of a line that the terminal wrapped follow each other directly; between all
/// others there is one newline.
pub proof fn lemma_wrapped_rows_are_joined(
    screen: vt100::Screen,
    start: (u16, u16),
    end: (u16, u16),
    row: u16,
)
    requires
        start.0 <= row < end.0,
        row < screen_size(screen).0,
    ensures
        ({
            let above = screen_text(screen, start, (row, screen_size(screen).1));
            let below = screen_text(screen, ((row + 1) as u16, 0), end);
            screen_text(screen, start, end) == if row_wrapped(screen, row) {
                above + below
            } else {
                above + seq!['\n'] + below
            }
        }),
    decreases row - start.0,
{
    let cols = screen_size(screen).1;
    let above = screen_text(screen, start, (row, cols));
    let below = screen_text(screen, ((row + 1) as u16, 0), end);
    if start.0 < row {
        let next = ((start.0 + 1) as u16, 0u16);
        lemma_wrapped_rows_are_joined(screen, next, end, row);
        let head = line_text(screen, start.0, start.1, cols) + line_end(screen, start.0);
        assert(screen_text(screen, start, end) == head + screen_text(screen, next, end));
        assert(above == head + screen_text(screen, next, (row, cols)));
    }
    assert(screen_text(screen, start, end) =~= above + line_end(screen, row) + below);
    assert(row_wrapped(screen, row) ==> above + line_end(screen, row) + below =~= above + below);
}

/// Extracted text never ends in a newline.
pub proof fn lemma_extracted_text_has_no_trailing_newline(text: Seq<char>)
    ensures
        without_trailing_newlines(text).len() > 0 ==> without_trailing_newlines(text).last() != '\n',
        without_trailing_newlines(text).is_prefix_of(text),
    decreases text.len(),
{
    if text.len() > 0 && text.last() == '\n' {
        lemma_extracted_text_has_no_trailing_newline(text.drop_last());
        let t = without_trailing_newlines(text);
        assert(t =~= text.subrange(0, t.len() as int));
    } else {
        assert(text =~= text.subrange(0, text.len() as int));
    }
}

/// The place of a cell in reading order, as a number.
pub open spec fn reading_position(cell: (u16, u16)) -> int {
    cell.0 * 0x10000 + cell.1
}

/// A selection covers exactly the cells whose place in reading order is not
/// before both of its ends and not behind both of them.
pub proof fn lemma_selection_covers_what_is_between(a: (u16, u16), b: (u16, u16), cell: (u16, u16))
    ensures
        ({
            let (p, q, x) = (reading_position(a), reading_position(b), reading_position(cell));
            &&& selects(a, b, cell) <==> (p <= x || q <= x) && (x <= p || x <= q)
            &&& reading_position(ordered(a, b).0) <= reading_position(ordered(a, b).1)
            &&& ordered(a, b) == (a, b) || ordered(a, b) == (b, a)
        }),
{
}

/// The text of a selection that was made forwards is what is in view from its
/// start up to and including its end: the column behind the last cell is where
/// it stops.
pub proof fn lemma_both_ends_are_extracted(screen: vt100::Screen, a: (u16, u16), b: (u16, u16))
    requires
        reading_position(a) <= reading_position(b),
        b.1 < u16::MAX,
    ensures
        selection_text(screen, a, b) == without_trailing_newlines(
            screen_text(screen, a, (b.0, (b.1 + 1) as u16)),
        ),
{
}

/// Nothing but newlines is cut off the end of extracted text.
pub proof fn lemma_only_newlines_are_cut_off(text: Seq<char>, i: int)
    requires
        without_trailing_newlines(text).len() <= i < text.len(),
    ensures
        text[i] == '\n',
    decreases text.len(),
{
    if i < text.len() - 1 {
        lemma_only_newlines_are_cut_off(text.drop_last(), i);
        assert(text[i] == text.drop_last()[i]);
    }
}

/// A selection without a start or without an end covers nothing; one with both
/// covers what lies between them.
pub proof fn lemma_selections_need_two_ends(selection: SelectionState, cell: (u16, u16))
    ensures
        selection.start is None || selection.end is None ==> !covers(selection, cell),
        selection.start is Some && selection.end is Some ==> (covers(selection, cell) <==> selects(
            selection.start->0,
            selection.end->0,
            cell,
        )),
{
}

} // verus!
