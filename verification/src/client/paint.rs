//! Painting the grid with a 2D canvas, as a list of drawing operations.
//!
//! Positions are cells; the operations are turned into pixels by whoever
//! holds the canvas.

use crate::client::cells::{append_cell, in_reading_order};
use crate::client::color::{
    base_colors, cell_fg_rgb, cell_view, cell_visual, foreground, visual, CellOverride, DEFAULT_BG,
    DEFAULT_FG, SELECTION_FG,
};
use crate::client::graphics::{draw_graphic_cell, glyph_graphic, Graphic};
use crate::client::screen::{cell_at, read_cell, screen_size, vt_size, Cell, CellView};
use crate::client::selection::{covers, SelectionState};
use vstd::prelude::*;

verus! {

/// One drawing operation.
#[derive(Debug)]
pub enum DrawOp {
    /// Fill the whole canvas with the default background.
    Clear,
    /// Align text to the vertical middle of its cell.
    Baseline,
    /// Select the bold or the regular font.
    Font { bold: bool },
    /// Fill a cell.
    Fill { row: u16, col: u16, color: u32 },
    /// Fill a cell and the seam around it.
    Highlight { row: u16, col: u16, color: u32 },
    /// Paint a graphic character.
    Shape { row: u16, col: u16, color: u32, shape: Graphic },
    /// Draw text with the selected font.
    Text { row: u16, col: u16, color: u32, text: String },
}

/// The mathematical value of a [`DrawOp`].
pub enum OpView {
    Clear,
    Baseline,
    Font { bold: bool },
    Fill { row: u16, col: u16, color: int },
    Highlight { row: u16, col: u16, color: int },
    Shape { row: u16, col: u16, color: int, shape: Graphic },
    Text { row: u16, col: u16, color: int, text: Seq<char> },
}

impl View for DrawOp {
    type V = OpView;

    open spec fn view(&self) -> OpView {
        match *self {
            DrawOp::Clear => OpView::Clear,
            DrawOp::Baseline => OpView::Baseline,
            DrawOp::Font { bold } => OpView::Font { bold },
            DrawOp::Fill { row, col, color } => OpView::Fill { row, col, color: color as int },
            DrawOp::Highlight { row, col, color } => OpView::Highlight {
                row,
                col,
                color: color as int,
            },
            DrawOp::Shape { row, col, color, shape } => OpView::Shape {
                row,
                col,
                color: color as int,
                shape,
            },
            DrawOp::Text { row, col, color, text } => OpView::Text {
                row,
                col,
                color: color as int,
                text: text@,
            },
        }
    }
}

/// The values of a list of drawing operations.
pub open spec fn ops_view(ops: Seq<DrawOp>) -> Seq<OpView> {
    Seq::new(ops.len(), |i: int| ops[i]@)
}

/// The cell to paint at `(row, col)`: nothing outside of the screen.
pub open spec fn painted_cell(screen: vt100::Screen, row: u16, col: u16) -> Option<CellView> {
    if row < screen_size(screen).0 && col < screen_size(screen).1 {
        cell_at(screen, row, col)
    } else {
        None
    }
}

/// The color that a cell's text is painted in, or `None` when there is no
/// text or it could not be told from the background.
pub open spec fn text_color(cell: Option<CellView>, selected: bool) -> Option<int> {
    match cell {
        Some(c) => {
            let color = if selected {
                SELECTION_FG as int
            } else {
                foreground(c, DEFAULT_FG)
            };
            if c.contents.len() > 0 && color != DEFAULT_BG {
                Some(color)
            } else {
                None
            }
        },
        None => None,
    }
}

/// The operations that put a cell's background on the canvas: the default
/// background, and over it the highlight of a selected cell (in the cell's
/// foreground color) or a background color of the cell's own.
pub open spec fn background_ops(cell: Option<CellView>, selected: bool, row: u16, col: u16) -> Seq<
    OpView,
> {
    let (fg, bg) = base_colors(cell, DEFAULT_FG, DEFAULT_BG);
    seq![OpView::Fill { row, col, color: DEFAULT_BG as int }] + (if selected {
        seq![OpView::Highlight { row, col, color: fg }]
    } else if bg != DEFAULT_BG {
        seq![OpView::Fill { row, col, color: bg }]
    } else {
        Seq::empty()
    })
}

/// The operations that put a cell's text on the canvas, with the font
/// switched only where the selected one does not fit.
pub open spec fn text_ops(cell: Option<CellView>, selected: bool, row: u16, col: u16, bold: bool) -> Seq<
    OpView,
> {
    match (cell, text_color(cell, selected)) {
        (Some(c), Some(color)) => match glyph_graphic(c.contents) {
            Some(shape) => seq![OpView::Shape { row, col, color, shape }],
            None => (if c.bold != bold {
                seq![OpView::Font { bold: c.bold }]
            } else {
                Seq::empty()
            }) + seq![OpView::Text { row, col, color, text: c.contents }],
        },
        _ => Seq::empty(),
    }
}

/// All operations that paint the cell at `(row, col)` while the bold or the
/// regular font is selected.
pub open spec fn cell_ops(
    screen: vt100::Screen,
    selection: SelectionState,
    row: u16,
    col: u16,
    bold: bool,
) -> Seq<OpView> {
    let cell = painted_cell(screen, row, col);
    let selected = covers(selection, (row, col));
    background_ops(cell, selected, row, col) + text_ops(cell, selected, row, col, bold)
}

/// Whether the bold font is selected after a cell's text has been painted.
pub open spec fn text_font(cell: Option<CellView>, selected: bool, bold: bool) -> bool {
    match (cell, text_color(cell, selected)) {
        (Some(c), Some(_)) => if glyph_graphic(c.contents) is None {
            c.bold
        } else {
            bold
        },
        _ => bold,
    }
}

/// Whether the bold font is selected after the cell at `(row, col)` has been
/// painted.
pub open spec fn font_after(
    screen: vt100::Screen,
    selection: SelectionState,
    row: u16,
    col: u16,
    bold: bool,
) -> bool {
    text_font(painted_cell(screen, row, col), covers(selection, (row, col)), bold)
}

/// The operations that paint `cells` in turn, starting with the regular font.
pub open spec fn cells_ops(
    screen: vt100::Screen,
    selection: SelectionState,
    cells: Seq<(u16, u16)>,
) -> Seq<OpView>
    decreases cells.len(),
{
    if cells.len() == 0 {
        Seq::empty()
    } else {
        let at = cells.last();
        cells_ops(screen, selection, cells.drop_last()) + cell_ops(
            screen,
            selection,
            at.0,
            at.1,
            cells_font(screen, selection, cells.drop_last()),
        )
    }
}

/// Whether the bold font is selected after `cells` have been painted.
pub open spec fn cells_font(
    screen: vt100::Screen,
    selection: SelectionState,
    cells: Seq<(u16, u16)>,
) -> bool
    decreases cells.len(),
{
    if cells.len() == 0 {
        false
    } else {
        let at = cells.last();
        font_after(screen, selection, at.0, at.1, cells_font(screen, selection, cells.drop_last()))
    }
}

/// The operations that draw the block cursor over the cell at `at`: the cell
/// in swapped colors.
pub open spec fn cursor_ops(screen: vt100::Screen, at: Option<(u16, u16)>) -> Seq<OpView> {
    match at {
        None => Seq::empty(),
        Some((row, col)) => {
            let cell = cell_at(screen, row, col);
            let (fg, bg) = visual(cell, DEFAULT_FG, DEFAULT_BG, CellOverride::Cursor);
            seq![OpView::Fill { row, col, color: bg }] + (match cell {
                Some(c) => if c.contents.len() > 0 {
                    match glyph_graphic(c.contents) {
                        Some(shape) => seq![OpView::Shape { row, col, color: fg, shape }],
                        None => seq![OpView::Text { row, col, color: fg, text: c.contents }],
                    }
                } else {
                    Seq::empty()
                },
                None => Seq::empty(),
            })
        },
    }
}

/// How a frame starts: with the canvas cleared, where the whole grid is
/// painted, and with the baseline and the font selected.
pub open spec fn frame_header(full: bool) -> Seq<OpView> {
    (if full {
        seq![OpView::Clear]
    } else {
        Seq::empty()
    }) + seq![OpView::Baseline, OpView::Font { bold: false }]
}

/// A frame: its header, the cells, and the cursor on top.
pub open spec fn frame_ops(
    full: bool,
    screen: vt100::Screen,
    selection: SelectionState,
    cells: Seq<(u16, u16)>,
    cursor: Option<(u16, u16)>,
) -> Seq<OpView> {
    frame_header(full) + cells_ops(screen, selection, cells) + cursor_ops(screen, cursor)
}

/// Appends one operation.
pub fn emit(ops: &mut Vec<DrawOp>, op: DrawOp)
    ensures
        ops_view(final(ops)@) == ops_view(old(ops)@).push(op@),
{
    ops.push(op);
    assert(ops_view(ops@) =~= ops_view(old(ops)@).push(op@));
}

/// Reads the cell to paint at (`row`, `col`); nothing outside of the screen.
pub fn read_painted_cell(screen: &vt100::Screen, row: u16, col: u16) -> (cell: Option<Cell>)
    ensures
        cell_view(cell) == painted_cell(*screen, row, col),
{
    let (rows, cols): (u16, u16) = vt_size(screen);
    if row < rows && col < cols {
        read_cell(screen, row, col)
    } else {
        None
    }
}

/// Paints the text of a cell. `bold` tells which font is selected.
pub fn paint_text(
    ops: &mut Vec<DrawOp>,
    cell: Option<Cell>,
    selected: bool,
    row: u16,
    col: u16,
    bold: &mut bool,
)
    ensures
        ops_view(final(ops)@) == ops_view(old(ops)@) + text_ops(
            cell_view(cell),
            selected,
            row,
            col,
            *old(bold),
        ),
        *final(bold) == text_font(cell_view(cell), selected, *old(bold)),
{
    let ghost start = ops_view(ops@);
    if let Some(c) = cell {
        if !c.contents.as_str().is_empty() {
            let color: u32 = if selected {
                SELECTION_FG
            } else {
                cell_fg_rgb(&c, DEFAULT_FG)
            };
            if color != DEFAULT_BG {
                match draw_graphic_cell(c.contents.as_str()) {
                    Some(shape) => {
                        emit(ops, DrawOp::Shape { row, col, color, shape });
                    },
                    None => {
                        if *bold != c.bold {
                            *bold = c.bold;
                            emit(ops, DrawOp::Font { bold: c.bold });
                        }
                        emit(ops, DrawOp::Text { row, col, color, text: c.contents });
                    },
                }
            }
        }
    }
    assert(ops_view(ops@) =~= start + text_ops(cell_view(cell), selected, row, col, *old(bold)));
}

/// Paints a single cell: default background, background of its own or
/// highlight, and text. `bold` tells which font is selected.
pub fn paint_cell(
    ops: &mut Vec<DrawOp>,
    screen: &vt100::Screen,
    selection: &SelectionState,
    row: u16,
    col: u16,
    bold: &mut bool,
)
    ensures
        ops_view(final(ops)@) == ops_view(old(ops)@) + cell_ops(
            *screen,
            *selection,
            row,
            col,
            *old(bold),
        ),
        *final(bold) == font_after(*screen, *selection, row, col, *old(bold)),
{
    let ghost start = ops_view(ops@);
    emit(ops, DrawOp::Fill { row, col, color: DEFAULT_BG });
    let cell: Option<Cell> = read_painted_cell(screen, row, col);
    let selected: bool = selection.is_selected(row, col);
    let (fg, bg): (u32, u32) = cell_visual(&cell, DEFAULT_FG, DEFAULT_BG, CellOverride::Normal);
    if selected {
        emit(ops, DrawOp::Highlight { row, col, color: fg });
    } else if bg != DEFAULT_BG {
        emit(ops, DrawOp::Fill { row, col, color: bg });
    }
    assert(ops_view(ops@) =~= start + background_ops(cell_view(cell), selected, row, col));
    paint_text(ops, cell, selected, row, col, bold);
    assert(ops_view(ops@) =~= start + cell_ops(*screen, *selection, row, col, *old(bold)));
}

/// Draws the block cursor over the cell at `cursor`, if there is one.
pub fn draw_cursor(ops: &mut Vec<DrawOp>, screen: &vt100::Screen, cursor: Option<(u16, u16)>)
    ensures
        ops_view(final(ops)@) == ops_view(old(ops)@) + cursor_ops(*screen, cursor),
{
    let ghost start = ops_view(ops@);
    if let Some((row, col)) = cursor {
        let cell: Option<Cell> = read_cell(screen, row, col);
        let (fg, bg): (u32, u32) = cell_visual(&cell, DEFAULT_FG, DEFAULT_BG, CellOverride::Cursor);
        emit(ops, DrawOp::Fill { row, col, color: bg });
        if let Some(c) = cell {
            if !c.contents.as_str().is_empty() {
                match draw_graphic_cell(c.contents.as_str()) {
                    Some(shape) => emit(ops, DrawOp::Shape { row, col, color: fg, shape }),
                    None => emit(ops, DrawOp::Text { row, col, color: fg, text: c.contents }),
                }
            }
        }
    }
    assert(ops_view(ops@) =~= start + cursor_ops(*screen, cursor));
}

/// Paints a frame: clears the canvas for a full one, paints `cells` in turn
/// and draws the cursor last.
pub fn paint_frame(
    full: bool,
    screen: &vt100::Screen,
    selection: &SelectionState,
    cells: &Vec<(u16, u16)>,
    cursor: Option<(u16, u16)>,
) -> (ops: Vec<DrawOp>)
    ensures
        ops_view(ops@) == frame_ops(full, *screen, *selection, cells@, cursor),
{
    let mut ops: Vec<DrawOp> = Vec::new();
    if full {
        emit(&mut ops, DrawOp::Clear);
    }
    emit(&mut ops, DrawOp::Baseline);
    emit(&mut ops, DrawOp::Font { bold: false });
    let mut bold: bool = false;
    let ghost header = frame_header(full);
    assert(cells@.take(0) =~= Seq::<(u16, u16)>::empty());
    assert(ops_view(ops@) =~= header + cells_ops(*screen, *selection, cells@.take(0)));
    let mut i: usize = 0;
    while i < cells.len()
        invariant
            i <= cells@.len(),
            ops_view(ops@) == header + cells_ops(*screen, *selection, cells@.take(i as int)),
            bold == cells_font(*screen, *selection, cells@.take(i as int)),
        decreases cells.len() - i,
    {
        let (row, col): (u16, u16) = cells[i];
        paint_cell(&mut ops, screen, selection, row, col, &mut bold);
        assert(cells@.take(i + 1).drop_last() =~= cells@.take(i as int));
        assert(cells@.take(i + 1).last() == cells@[i as int]);
        i += 1;
        assert(ops_view(ops@) =~= header + cells_ops(*screen, *selection, cells@.take(i as int)));
    }
    assert(cells@.take(i as int) =~= cells@);
    draw_cursor(&mut ops, screen, cursor);
    ops
}

/// A whole grid of cells in reading order.
pub fn all_cells(rows: u16, cols: u16) -> (cells: Vec<(u16, u16)>)
    ensures
        in_reading_order(cells@),
        forall|c: (u16, u16)| #[trigger] cells@.contains(c) <==> c.0 < rows && c.1 < cols,
{
    let mut cells: Vec<(u16, u16)> = Vec::new();
    let mut row: u16 = 0;
    while row < rows
        invariant
            row <= rows,
            in_reading_order(cells@),
            forall|c: (u16, u16)| #[trigger] cells@.contains(c) <==> c.0 < row && c.1 < cols,
        decreases rows - row,
    {
        let mut col: u16 = 0;
        while col < cols
            invariant
                row < rows,
                col <= cols,
                in_reading_order(cells@),
                forall|c: (u16, u16)| #[trigger]
                    cells@.contains(c) <==> c.1 < cols && (c.0 < row || (c.0 == row && c.1 < col)),
            decreases cols - col,
        {
            append_cell(&mut cells, (row, col));
            col += 1;
        }
        row += 1;
    }
    cells
}

/// The color of an operation that fills a cell.
pub open spec fn fill_color(op: OpView) -> int {
    match op {
        OpView::Fill { color, .. } => color,
        OpView::Highlight { color, .. } => color,
        _ => 0,
    }
}

/// The 2D canvas shows the colors that the WebGL2 renderer computes: the last
/// fill of a cell is its background color, and its text, where it is painted,
/// has its foreground color.
pub proof fn lemma_renderers_agree_on_colors(
    cell: Option<CellView>,
    selected: bool,
    row: u16,
    col: u16,
)
    ensures
        ({
            let state = if selected {
                CellOverride::Selected
            } else {
                CellOverride::Normal
            };
            let (fg, bg) = visual(cell, DEFAULT_FG, DEFAULT_BG, state);
            &&& fill_color(background_ops(cell, selected, row, col).last()) == bg
            &&& text_color(cell, selected) matches Some(color) ==> color == fg
        }),
{
}

/// Painting a cell touches no other cell.
pub proof fn lemma_cell_ops_stay_in_their_cell(
    screen: vt100::Screen,
    selection: SelectionState,
    row: u16,
    col: u16,
    bold: bool,
    i: int,
)
    requires
        0 <= i < cell_ops(screen, selection, row, col, bold).len(),
    ensures
        match cell_ops(screen, selection, row, col, bold)[i] {
            OpView::Font { .. } => true,
            OpView::Fill { row: r, col: c, .. } => r == row && c == col,
            OpView::Highlight { row: r, col: c, .. } => r == row && c == col,
            OpView::Shape { row: r, col: c, .. } => r == row && c == col,
            OpView::Text { row: r, col: c, .. } => r == row && c == col,
            _ => false,
        },
{
}

/// Every cell of the list is painted: it is filled with the default background
/// before anything else is put into it.
pub proof fn lemma_listed_cells_are_painted(
    screen: vt100::Screen,
    selection: SelectionState,
    cells: Seq<(u16, u16)>,
    at: (u16, u16),
)
    requires
        cells.contains(at),
    ensures
        cells_ops(screen, selection, cells).contains(
            (OpView::Fill { row: at.0, col: at.1, color: DEFAULT_BG as int }),
        ),
    decreases cells.len(),
{
    let last = cells.last();
    let fewer = cells.drop_last();
    let fill = OpView::Fill { row: at.0, col: at.1, color: DEFAULT_BG as int };
    let before = cells_ops(screen, selection, fewer);
    let own = cell_ops(screen, selection, last.0, last.1, cells_font(screen, selection, fewer));
    let all = cells_ops(screen, selection, cells);
    assert(all == before + own);
    if last == at {
        assert(own[0] == fill);
        assert(all[before.len() as int] == fill);
    } else {
        let k = choose|k: int| 0 <= k < cells.len() && cells[k] == at;
        assert(fewer[k] == at);
        lemma_listed_cells_are_painted(screen, selection, fewer, at);
        let i = choose|i: int| 0 <= i < before.len() && before[i] == fill;
        assert(all[i] == fill);
    }
}

/// Painting cells does not clear the canvas.
pub proof fn lemma_cells_do_not_clear(
    screen: vt100::Screen,
    selection: SelectionState,
    cells: Seq<(u16, u16)>,
)
    ensures
        forall|i: int|
            0 <= i < cells_ops(screen, selection, cells).len() ==> #[trigger] cells_ops(
                screen,
                selection,
                cells,
            )[i] != OpView::Clear,
    decreases cells.len(),
{
    if cells.len() > 0 {
        let at = cells.last();
        let bold = cells_font(screen, selection, cells.drop_last());
        lemma_cells_do_not_clear(screen, selection, cells.drop_last());
        let last = cell_ops(screen, selection, at.0, at.1, bold);
        assert forall|i: int| 0 <= i < last.len() implies #[trigger] last[i] != OpView::Clear by {
            lemma_cell_ops_stay_in_their_cell(screen, selection, at.0, at.1, bold, i);
        }
    }
}

/// Selected cells are highlighted up to the seams around them, in their own
/// foreground color, and no other cells are.
pub proof fn lemma_selected_cells_are_highlighted(
    screen: vt100::Screen,
    selection: SelectionState,
    row: u16,
    col: u16,
    bold: bool,
)
    ensures
        ({
            let ops = cell_ops(screen, selection, row, col, bold);
            let own = visual(
                painted_cell(screen, row, col),
                DEFAULT_FG,
                DEFAULT_BG,
                CellOverride::Normal,
            );
            &&& covers(selection, (row, col)) ==> ops.contains(
                (OpView::Highlight { row, col, color: own.0 }),
            )
            &&& !covers(selection, (row, col)) ==> forall|i: int|
                0 <= i < ops.len() ==> !(#[trigger] ops[i] is Highlight)
        }),
{
    let ops = cell_ops(screen, selection, row, col, bold);
    let own = visual(painted_cell(screen, row, col), DEFAULT_FG, DEFAULT_BG, CellOverride::Normal);
    if covers(selection, (row, col)) {
        assert(ops[1] == OpView::Highlight { row, col, color: own.0 });
    }
}

/// All text is aligned to the middle of its cell: the baseline is chosen
/// before any text of a frame is drawn.
pub proof fn lemma_text_is_aligned(
    full: bool,
    screen: vt100::Screen,
    selection: SelectionState,
    cells: Seq<(u16, u16)>,
    cursor: Option<(u16, u16)>,
    i: int,
)
    requires
        0 <= i < frame_ops(full, screen, selection, cells, cursor).len(),
        frame_ops(full, screen, selection, cells, cursor)[i] is Text,
    ensures
        exists|j: int|
            0 <= j < i && #[trigger] frame_ops(full, screen, selection, cells, cursor)[j]
                == OpView::Baseline,
{
    let ops = frame_ops(full, screen, selection, cells, cursor);
    let header = frame_header(full);
    let j = header.len() - 2;
    assert(ops[j] == header[j]);
    assert(ops[j] == OpView::Baseline);
    if i < header.len() {
        assert(ops[i] == header[i]);
    }
}

/// Outside of the screen there is nothing to paint, and inside of it the cell
/// that is in view.
pub proof fn lemma_cells_in_view_are_painted(screen: vt100::Screen, row: u16, col: u16)
    ensures
        row < screen_size(screen).0 && col < screen_size(screen).1 ==> painted_cell(screen, row, col)
            == cell_at(screen, row, col),
        row >= screen_size(screen).0 || col >= screen_size(screen).1 ==> painted_cell(
            screen,
            row,
            col,
        ) is None,
{
}

} // verus!
