//! The terminal state of this client and the frames that it draws.

use crate::client::canvas::{
    cursor_look, font_in_force, lemma_cursor_is_shown, lemma_header_is_shown, lemma_shown_in_turn,
    lemma_shown_short, lemma_text_is_shown, proper_look, shown, Ink, Look,
};
use crate::client::color::{
    base_colors, cell_visual, visual, CellOverride, DEFAULT_BG, DEFAULT_FG,
};
use crate::client::mend::{
    fitting_cols, fitting_rows, lemma_blank_rows_are_whole, refit, refit_effect, refitted, would_cut,
};
use crate::client::paint::{
    cursor_ops, draw_cursor, emit, frame_header, ops_view, paint_text, painted_cell, read_painted_cell,
    text_font, text_ops, DrawOp, OpView,
};
use crate::client::screen::{
    blank_rows, cell_at, emulator_fed, emulator_made, emulator_resized, emulator_screen, feedable, grid_cols,
    grid_rows, screen_cursor, screen_rows, screen_size, screen_text, shown_cols, shown_rows,
    vt_contents_between, vt_cursor, vt_new, vt_process, vt_screen, Cell, CellView, Emulator,
};
use crate::client::selection::{extractable, normalized_bounds, ordered, reading_position};
use crate::client::state::{DEFAULT_COLS, DEFAULT_ROWS, SCROLLBACK_LEN};
use crate::text::push_text;
use vstd::arithmetic::div_mod::{
    lemma_fundamental_div_mod, lemma_fundamental_div_mod_converse, lemma_mod_bound,
};
use vstd::prelude::*;

verus! {

/// Selection mode.
#[derive(Clone, Copy, PartialEq, Eq, Structural, Debug)]
pub enum SelectionMode {
    /// No selection is active.
    Idle,
    /// A selection that follows the flow of the text.
    Linear,
}

impl SelectionMode {
    /// The name of the mode.
    pub open spec fn label(self) -> Seq<char> {
        match self {
            SelectionMode::Idle => "None"@,
            SelectionMode::Linear => "Linear"@,
        }
    }

    /// The name under which the mode is reported.
    pub fn to_string(&self) -> (text: String)
        ensures
            text@ == self.label(),
    {
        match self {
            SelectionMode::Idle => "None".to_owned(),
            SelectionMode::Linear => "Linear".to_owned(),
        }
    }
}

/// The text between two cells in reading order, without the last one.
pub open spec fn text_between(screen: vt100::Screen, a: (u16, u16), b: (u16, u16)) -> Seq<char> {
    let (first, last) = ordered(a, b);
    screen_text(screen, first, last)
}

/// Extracts the text between two cells; the direction does not matter.
pub fn extract_selection(screen: &vt100::Screen, start: (u16, u16), end: (u16, u16)) -> (text: String)
    requires
        extractable(*screen, start, end),
    ensures
        text@ == text_between(*screen, start, end),
        start == end ==> text@ == Seq::<char>::empty(),
{
    let (first, last): ((u16, u16), (u16, u16)) = normalized_bounds(start, end);
    vt_contents_between(screen, first, last)
}

/// The terminal.
pub struct TerminalState {
    /// The emulator.
    pub parser: Emulator,
    /// ID of the canvas element.
    pub canvas_id: String,
    /// Rows that fit on the canvas; 0 stands for the emulator's rows.
    pub rows: u16,
    /// Columns that fit on the canvas; 0 stands for the emulator's columns.
    pub cols: u16,
    /// Selection mode.
    pub selection_mode: SelectionMode,
    /// The cell where the selection was started.
    pub selection_start: Option<(u16, u16)>,
    /// The cell where the selection ends.
    pub selection_end: Option<(u16, u16)>,
    /// Whether WebGL2 can be used.
    pub webgl2_available: bool,
    /// Whether the terminal runs without WebGL2.
    pub fallback_mode: bool,
}

/// The mathematical value of a [`TerminalState`].
pub struct Model {
    pub parser: Emulator,
    pub canvas_id: Seq<char>,
    pub rows: u16,
    pub cols: u16,
    pub selection_mode: SelectionMode,
    pub selection_start: Option<(u16, u16)>,
    pub selection_end: Option<(u16, u16)>,
    pub webgl2_available: bool,
    pub fallback_mode: bool,
}

impl View for TerminalState {
    type V = Model;

    open spec fn view(&self) -> Model {
        Model {
            parser: self.parser,
            canvas_id: self.canvas_id@,
            rows: self.rows,
            cols: self.cols,
            selection_mode: self.selection_mode,
            selection_start: self.selection_start,
            selection_end: self.selection_end,
            webgl2_available: self.webgl2_available,
            fallback_mode: self.fallback_mode,
        }
    }
}

/// The smaller of two coordinates.
pub open spec fn lower(a: u16, b: u16) -> u16 {
    if a <= b {
        a
    } else {
        b
    }
}

/// The larger of two coordinates.
pub open spec fn upper(a: u16, b: u16) -> u16 {
    if a <= b {
        b
    } else {
        a
    }
}

/// Whether a cell lies in the rectangle between two cells.
pub open spec fn in_rectangle(a: (u16, u16), b: (u16, u16), row: u16, col: u16) -> bool {
    lower(a.0, b.0) <= row <= upper(a.0, b.0) && lower(a.1, b.1) <= col <= upper(a.1, b.1)
}

impl Model {
    /// The screen that the emulator shows.
    pub open spec fn screen(self) -> vt100::Screen {
        emulator_screen(self.parser)
    }

    /// What always holds: the emulator can take output, and the terminal runs
    /// in fallback mode exactly when WebGL2 is missing.
    pub open spec fn wf(self) -> bool {
        feedable(self.parser) && self.fallback_mode == !self.webgl2_available
    }

    /// Rows of the painted grid.
    pub open spec fn shown_rows(self) -> u16 {
        grid_rows(self.rows, self.screen())
    }

    /// Columns of the painted grid.
    pub open spec fn shown_cols(self) -> u16 {
        grid_cols(self.cols, self.screen())
    }

    /// Whether a cell is highlighted as selected.
    pub open spec fn highlights(self, row: u16, col: u16) -> bool {
        match (self.selection_start, self.selection_end) {
            (Some(a), Some(b)) => in_rectangle(a, b, row, col),
            _ => false,
        }
    }

    /// The cursor cell to show, if the cursor is inside of the grid.
    pub open spec fn visible_cursor(self) -> Option<(u16, u16)> {
        let at = screen_cursor(self.screen());
        if at.0 < self.shown_rows() && at.1 < self.shown_cols() {
            Some(at)
        } else {
            None
        }
    }
}

/// One of the three passes over the grid.
#[derive(Clone, Copy, PartialEq, Eq, Structural, Debug)]
pub enum Pass {
    /// Background colors of cells that are not selected.
    Background,
    /// The highlight of selected cells.
    Highlight,
    /// Text.
    Text,
}

/// What a pass paints of the cell at (`row`, `col`), with the bold or the
/// regular font selected.
pub open spec fn pass_ops(model: Model, pass: Pass, row: u16, col: u16, bold: bool) -> Seq<OpView> {
    let cell = painted_cell(model.screen(), row, col);
    let selected = model.highlights(row, col);
    let (fg, bg) = base_colors(cell, DEFAULT_FG, DEFAULT_BG);
    match pass {
        Pass::Background => if bg != DEFAULT_BG && !selected {
            seq![OpView::Fill { row, col, color: bg }]
        } else {
            Seq::empty()
        },
        Pass::Highlight => if selected {
            seq![OpView::Highlight { row, col, color: fg }]
        } else {
            Seq::empty()
        },
        Pass::Text => text_ops(cell, selected, row, col, bold),
    }
}

/// Whether the bold font is selected after a pass has painted a cell.
pub open spec fn pass_font(model: Model, pass: Pass, row: u16, col: u16, bold: bool) -> bool {
    if pass == Pass::Text {
        text_font(painted_cell(model.screen(), row, col), model.highlights(row, col), bold)
    } else {
        bold
    }
}

/// What a pass paints of the first `n` cells of the grid, in reading order.
pub open spec fn sweep_ops(model: Model, pass: Pass, n: int) -> Seq<OpView>
    decreases n,
{
    if n <= 0 {
        Seq::empty()
    } else {
        let k = n - 1;
        let row = (k / (model.shown_cols() as int)) as u16;
        let col = (k % (model.shown_cols() as int)) as u16;
        sweep_ops(model, pass, k) + pass_ops(model, pass, row, col, sweep_font(model, pass, k))
    }
}

/// Whether the bold font is selected after a pass over the first `n` cells
/// that started with the regular one.
pub open spec fn sweep_font(model: Model, pass: Pass, n: int) -> bool
    decreases n,
{
    if n <= 0 {
        false
    } else {
        let k = n - 1;
        let row = (k / (model.shown_cols() as int)) as u16;
        let col = (k % (model.shown_cols() as int)) as u16;
        pass_font(model, pass, row, col, sweep_font(model, pass, k))
    }
}

/// A whole frame: the cleared canvas, the backgrounds, the highlight, the
/// text and the cursor, in this order.
pub open spec fn frame(model: Model) -> Seq<OpView> {
    let n = model.shown_rows() * model.shown_cols();
    seq![OpView::Clear, OpView::Baseline, OpView::Font { bold: false }] + sweep_ops(
        model,
        Pass::Background,
        n,
    ) + sweep_ops(model, Pass::Highlight, n) + sweep_ops(model, Pass::Text, n) + cursor_ops(
        model.screen(),
        model.visible_cursor(),
    )
}

/// The `k`th cell of a grid stands in row `row` and column `col` exactly when
/// it is the `col`th cell of the `row`th row.
proof fn lemma_grid_cell(row: int, col: int, cols: int)
    requires
        0 <= row,
        0 <= col < cols,
    ensures
        (row * cols + col) / cols == row,
        (row * cols + col) % cols == col,
{
    lemma_fundamental_div_mod_converse(row * cols + col, cols, row, col);
}

impl TerminalState {
    /// Creates the terminal for the canvas element `canvas_id`, given whether
    /// WebGL2 can be used, whether the element was found and offers a 2D
    /// context, and how many rows and columns fit on it where its size is
    /// known.
    pub fn new(
        canvas_id: &str,
        webgl2_available: bool,
        canvas_found: bool,
        context2d: bool,
        rows: Option<u16>,
        cols: Option<u16>,
    ) -> (state: Result<TerminalState, String>)
        ensures
            match state {
                Ok(s) => {
                    &&& canvas_found && context2d
                    &&& s@ == Model::fresh(canvas_id@, webgl2_available, rows, cols)
                    &&& s@.wf()
                    &&& screen_size(s@.screen()) == (DEFAULT_ROWS, DEFAULT_COLS)
                    &&& screen_rows(s@.screen(), false) == blank_rows(DEFAULT_ROWS, DEFAULT_COLS)
                    &&& screen_rows(s@.screen(), true) == Seq::<Seq<CellView>>::empty()
                },
                Err(e) => {
                    if !canvas_found {
                        e@ == "canvas '#"@ + canvas_id@ + "' not found"@
                    } else {
                        !context2d && e@ == "2D context unavailable"@
                    }
                },
            },
    {
        if !canvas_found {
            let mut e: String = "canvas '#".to_owned();
            push_text(&mut e, canvas_id);
            push_text(&mut e, "' not found");
            return Err(e);
        }
        if !context2d {
            return Err("2D context unavailable".to_owned());
        }
        proof {
            lemma_blank_rows_are_whole();
        }
        Ok(
            TerminalState {
                parser: vt_new(DEFAULT_ROWS, DEFAULT_COLS, SCROLLBACK_LEN),
                canvas_id: canvas_id.to_owned(),
                rows: match rows {
                    Some(n) => n,
                    None => DEFAULT_ROWS,
                },
                cols: match cols {
                    Some(n) => n,
                    None => DEFAULT_COLS,
                },
                selection_mode: SelectionMode::Idle,
                selection_start: None,
                selection_end: None,
                webgl2_available,
                fallback_mode: !webgl2_available,
            },
        )
    }

    /// Feeds output of the terminal program to the emulator.
    pub fn process_bytes(&mut self, bytes: &[u8])
        requires
            old(self)@.wf(),
        ensures
            final(self)@ == (Model { parser: emulator_fed(old(self)@.parser, bytes@), ..old(self)@ }),
            final(self)@.wf(),
            screen_size(final(self)@.screen()) == screen_size(old(self)@.screen()),
    {
        vt_process(&mut self.parser, bytes);
    }

    /// Paints what one pass paints of a cell.
    fn paint_pass(&self, ops: &mut Vec<DrawOp>, pass: Pass, row: u16, col: u16, bold: &mut bool)
        ensures
            ops_view(final(ops)@) == ops_view(old(ops)@) + pass_ops(
                self@,
                pass,
                row,
                col,
                *old(bold),
            ),
            *final(bold) == pass_font(self@, pass, row, col, *old(bold)),
    {
        let ghost start = ops_view(ops@);
        let cell: Option<Cell> = read_painted_cell(vt_screen(&self.parser), row, col);
        let selected: bool = self.selected(row, col);
        let (fg, bg): (u32, u32) = cell_visual(&cell, DEFAULT_FG, DEFAULT_BG, CellOverride::Normal);
        match pass {
            Pass::Background => {
                if bg != DEFAULT_BG && !selected {
                    emit(ops, DrawOp::Fill { row, col, color: bg });
                }
            },
            Pass::Highlight => {
                if selected {
                    emit(ops, DrawOp::Highlight { row, col, color: fg });
                }
            },
            Pass::Text => paint_text(ops, cell, selected, row, col, bold),
        }
        assert(ops_view(ops@) =~= start + pass_ops(self@, pass, row, col, *old(bold)));
    }

    /// Paints what one pass paints of the whole grid.
    fn sweep(&self, ops: &mut Vec<DrawOp>, pass: Pass)
        ensures
            ops_view(final(ops)@) == ops_view(old(ops)@) + sweep_ops(
                self@,
                pass,
                self@.shown_rows() * self@.shown_cols(),
            ),
    {
        let rows: u16 = shown_rows(self.rows, vt_screen(&self.parser));
        let cols: u16 = shown_cols(self.cols, vt_screen(&self.parser));
        let ghost start = ops_view(ops@);
        let mut bold: bool = false;
        let mut row: u16 = 0;
        assert(0 * cols == 0);
        assert(start =~= start + sweep_ops(self@, pass, 0));
        while row < rows
            invariant
                row <= rows,
                rows == self@.shown_rows(),
                cols == self@.shown_cols(),
                ops_view(ops@) == start + sweep_ops(self@, pass, row * cols),
                bold == sweep_font(self@, pass, row * cols),
            decreases rows - row,
        {
            let mut col: u16 = 0;
            while col < cols
                invariant
                    row < rows,
                    col <= cols,
                    rows == self@.shown_rows(),
                    cols == self@.shown_cols(),
                    ops_view(ops@) == start + sweep_ops(self@, pass, row * cols + col),
                    bold == sweep_font(self@, pass, row * cols + col),
                decreases cols - col,
            {
                proof {
                    lemma_grid_cell(row as int, col as int, cols as int);
                    assert(0 <= row * cols) by (nonlinear_arith)
                        requires
                            0 <= row,
                            0 <= cols,
                    ;
                }
                self.paint_pass(ops, pass, row, col, &mut bold);
                assert(ops_view(ops@) =~= start + sweep_ops(self@, pass, row * cols + col + 1));
                col += 1;
            }
            assert((row + 1) * cols == row * cols + cols) by (nonlinear_arith);
            row += 1;
        }
    }

    /// Works out the drawing operations of a frame.
    pub fn render(&self) -> (ops: Vec<DrawOp>)
        ensures
            ops_view(ops@) == frame(self@),
    {
        let mut ops: Vec<DrawOp> = Vec::new();
        emit(&mut ops, DrawOp::Clear);
        emit(&mut ops, DrawOp::Baseline);
        emit(&mut ops, DrawOp::Font { bold: false });
        assert(ops_view(ops@) =~= seq![
            OpView::Clear,
            OpView::Baseline,
            OpView::Font { bold: false },
        ]);
        self.sweep(&mut ops, Pass::Background);
        self.sweep(&mut ops, Pass::Highlight);
        self.sweep(&mut ops, Pass::Text);
        let (row, col): (u16, u16) = vt_cursor(vt_screen(&self.parser));
        let rows: u16 = shown_rows(self.rows, vt_screen(&self.parser));
        let cols: u16 = shown_cols(self.cols, vt_screen(&self.parser));
        let cursor: Option<(u16, u16)> = if row < rows && col < cols {
            Some((row, col))
        } else {
            None
        };
        draw_cursor(&mut ops, vt_screen(&self.parser), cursor);
        ops
    }

    /// Whether the cell at (`row`, `col`) is highlighted as selected.
    pub fn selected(&self, row: u16, col: u16) -> (highlighted: bool)
        ensures
            highlighted == self@.highlights(row, col),
    {
        match (self.selection_start, self.selection_end) {
            (Some(a), Some(b)) => {
                let (r0, r1): (u16, u16) = if a.0 <= b.0 {
                    (a.0, b.0)
                } else {
                    (b.0, a.0)
                };
                let (c0, c1): (u16, u16) = if a.1 <= b.1 {
                    (a.1, b.1)
                } else {
                    (b.1, a.1)
                };
                r0 <= row && row <= r1 && c0 <= col && col <= c1
            },
            _ => false,
        }
    }

    /// Starts a selection at (`row`, `col`).
    pub fn handle_selection_start(&mut self, row: u16, col: u16)
        ensures
            final(self)@ == (Model {
                selection_mode: SelectionMode::Linear,
                selection_start: Some((row, col)),
                selection_end: None,
                ..old(self)@
            }),
    {
        self.selection_mode = SelectionMode::Linear;
        self.selection_start = Some((row, col));
        self.selection_end = None;
    }

    /// Moves the end of the selection to (`row`, `col`), if one was started.
    pub fn handle_selection_update(&mut self, row: u16, col: u16)
        ensures
            final(self)@ == if old(self)@.selection_start is Some || old(
                self,
            )@.selection_end is Some {
                Model { selection_end: Some((row, col)), ..old(self)@ }
            } else {
                old(self)@
            },
    {
        if self.selection_end.is_some() || self.selection_start.is_some() {
            self.selection_end = Some((row, col));
        }
    }

    /// Drops the selection.
    pub fn clear_selection(&mut self)
        ensures
            final(self)@ == old(self)@.deselected(),
    {
        self.selection_start = None;
        self.selection_end = None;
        self.selection_mode = SelectionMode::Idle;
    }

    /// The ID of the canvas element.
    pub fn canvas_id(&self) -> (id: &str)
        ensures
            id@ == self@.canvas_id,
    {
        self.canvas_id.as_str()
    }

    /// Rows and columns that fit on the canvas.
    pub fn size(&self) -> (size: (u16, u16))
        ensures
            size == (self@.rows, self@.cols),
    {
        (self.rows, self.cols)
    }

    /// Whether WebGL2 can be used.
    pub fn is_webgl2_available(&self) -> (available: bool)
        ensures
            available == self@.webgl2_available,
    {
        self.webgl2_available
    }

    /// Whether the terminal runs without WebGL2.
    pub fn is_fallback_mode(&self) -> (fallback: bool)
        ensures
            fallback == self@.fallback_mode,
    {
        self.fallback_mode
    }

    /// The emulator's screen.
    pub fn screen(&self) -> (screen: &vt100::Screen)
        ensures
            *screen == self@.screen(),
    {
        vt_screen(&self.parser)
    }

    /// Takes over the number of columns and rows that fit on the resized
    /// canvas, but at least two columns and one row. Returns the new rows and
    /// columns. The emulator's screens are resized as far as they stay fit for
    /// output; a wide character that would be cut in two is lost.
    pub fn resize(&mut self, cols: u16, rows: u16) -> (size: (u16, u16))
        requires
            old(self)@.wf(),
        ensures
            size == (upper(rows, 1), upper(cols, 2)),
            final(self)@ == old(self)@.resized(size.0, size.1),
            refit_effect(
                old(self)@.screen(),
                final(self)@.screen(),
                fitting_rows(size.0),
                fitting_cols(size.1),
            ),
            !would_cut(old(self)@.screen(), fitting_cols(size.1)) ==> final(self)@.parser
                == emulator_resized(
                old(self)@.parser,
                fitting_rows(size.0),
                fitting_cols(size.1),
            ),
            final(self)@.wf(),
    {
        let cols: u16 = if cols <= 2 {
            2
        } else {
            cols
        };
        let rows: u16 = if rows <= 1 {
            1
        } else {
            rows
        };
        refit(&mut self.parser, rows, cols);
        self.rows = rows;
        self.cols = cols;
        (rows, cols)
    }
}

impl Model {
    /// A new terminal: a blank emulator of the default size, and nothing
    /// selected.
    pub open spec fn fresh(
        canvas_id: Seq<char>,
        webgl2_available: bool,
        rows: Option<u16>,
        cols: Option<u16>,
    ) -> Model {
        Model {
            parser: emulator_made(DEFAULT_ROWS, DEFAULT_COLS, SCROLLBACK_LEN),
            canvas_id,
            rows: match rows {
                Some(n) => n,
                None => DEFAULT_ROWS,
            },
            cols: match cols {
                Some(n) => n,
                None => DEFAULT_COLS,
            },
            selection_mode: SelectionMode::Idle,
            selection_start: None,
            selection_end: None,
            webgl2_available,
            fallback_mode: !webgl2_available,
        }
    }

    /// With the emulator's screens and the grid resized.
    pub open spec fn resized(self, rows: u16, cols: u16) -> Model {
        Model { parser: refitted(self.parser, rows, cols), rows, cols, ..self }
    }

    /// Without a selection.
    pub open spec fn deselected(self) -> Model {
        Model {
            selection_mode: SelectionMode::Idle,
            selection_start: None,
            selection_end: None,
            ..self
        }
    }

    /// With the text between two cells selected.
    pub open spec fn selecting(self, start: (u16, u16), end: (u16, u16)) -> Model {
        Model {
            selection_mode: SelectionMode::Linear,
            selection_start: Some(start),
            selection_end: Some(end),
            ..self
        }
    }
}

/// The direction in which a selection was made does not matter: the same
/// cells are highlighted and the same text is extracted.
pub proof fn lemma_selection_has_no_direction(
    screen: vt100::Screen,
    a: (u16, u16),
    b: (u16, u16),
    row: u16,
    col: u16,
)
    ensures
        in_rectangle(a, b, row, col) == in_rectangle(b, a, row, col),
        text_between(screen, a, b) == text_between(screen, b, a),
{
}

/// The highlight covers both ends of the selection, and nothing outside of
/// the rows that the text flow of the selection crosses.
pub proof fn lemma_highlight_covers_the_ends(a: (u16, u16), b: (u16, u16), row: u16, col: u16)
    ensures
        in_rectangle(a, b, a.0, a.1),
        in_rectangle(a, b, b.0, b.1),
        in_rectangle(a, b, row, col) ==> ordered(a, b).0.0 <= row <= ordered(a, b).1.0,
{
}

/// The highlight covers exactly the cells that lie between the two ends in
/// both directions: no row and no column of such a cell is beyond both ends.
pub proof fn lemma_highlight_is_a_rectangle(a: (u16, u16), b: (u16, u16), row: u16, col: u16)
    ensures
        in_rectangle(a, b, row, col) <==> {
            &&& (a.0 <= row || b.0 <= row) && (row <= a.0 || row <= b.0)
            &&& (a.1 <= col || b.1 <= col) && (col <= a.1 || col <= b.1)
        },
{
}

/// A selection highlights the rectangle between its ends, none highlights
/// anything before it has both, and a dropped one nothing at all.
pub proof fn lemma_selections_are_highlighted(model: Model, a: (u16, u16), b: (u16, u16), row: u16, col: u16)
    ensures
        model.selecting(a, b).highlights(row, col) == in_rectangle(a, b, row, col),
        !model.deselected().highlights(row, col),
        model.selection_start is None || model.selection_end is None ==> !model.highlights(row, col),
        model.selecting(a, b).deselected() == model.deselected(),
{
}

/// The cursor is shown where it is, as long as that is inside of the grid.
pub proof fn lemma_cursor_is_shown_in_the_grid(model: Model, at: (u16, u16))
    ensures
        model.visible_cursor() == Some(at) <==> screen_cursor(model.screen()) == at && at.0
            < model.shown_rows() && at.1 < model.shown_cols(),
{
}

/// A new terminal has 24 rows and 80 columns unless the canvas says otherwise,
/// keeps 1024 rows of history, and highlights nothing.
pub proof fn lemma_fresh_terminals(
    canvas_id: Seq<char>,
    webgl2_available: bool,
    rows: Option<u16>,
    cols: Option<u16>,
)
    ensures
        ({
            let model = Model::fresh(canvas_id, webgl2_available, rows, cols);
            &&& model.parser == emulator_made(24, 80, 1024)
            &&& model.rows == if rows is Some { rows->0 } else { 24 }
            &&& model.cols == if cols is Some { cols->0 } else { 80 }
            &&& model.canvas_id == canvas_id
            &&& model.webgl2_available == webgl2_available
            &&& model.fallback_mode != webgl2_available
            &&& model.selection_mode == SelectionMode::Idle
            &&& forall|row: u16, col: u16| !#[trigger] model.highlights(row, col)
        }),
{
}

/// What a pass makes of a cell, given what it showed before: nothing but the
/// cell itself is touched, and only the text pass selects a font.
proof fn lemma_pass_is_shown(
    model: Model,
    pass: Pass,
    row: u16,
    col: u16,
    bold: bool,
    was: Look,
    at: (u16, u16),
)
    ensures
        ({
            let ops = pass_ops(model, pass, row, col, bold);
            let proper = proper_look(painted_cell(model.screen(), row, col), model.highlights(row, col));
            let own = shown(ops, bold, was, (row, col));
            &&& at != (row, col) ==> shown(ops, bold, was, at) == was
            &&& font_in_force(ops, bold) == pass_font(model, pass, row, col, bold)
            &&& pass == Pass::Background && was == (Look { fill: 0x2b2b2b, ink: Ink::Bare }) ==> own
                == Look {
                fill: if model.highlights(row, col) { 0x2b2b2b } else { proper.fill },
                ink: Ink::Bare,
            }
            &&& pass == Pass::Highlight && was.ink == Ink::Bare ==> own == Look {
                fill: if model.highlights(row, col) { proper.fill } else { was.fill },
                ink: Ink::Bare,
            }
            &&& pass == Pass::Text && was.ink == Ink::Bare ==> own == Look {
                ink: proper.ink,
                ..was
            }
        }),
{
    let ops = pass_ops(model, pass, row, col, bold);
    let cell = painted_cell(model.screen(), row, col);
    if pass == Pass::Text {
        lemma_text_is_shown(cell, model.highlights(row, col), row, col, bold, was, at);
        lemma_text_is_shown(cell, model.highlights(row, col), row, col, bold, was, (row, col));
    } else if ops.len() == 0 {
        assert(ops =~= Seq::empty());
    } else {
        assert(ops =~= seq![ops[0]]);
        lemma_shown_short(ops[0], ops[0], bold, was, at);
        lemma_shown_short(ops[0], ops[0], bold, was, (row, col));
    }
}

/// The number of a cell in the order of a pass tells its row and column.
proof fn lemma_cell_number(k: int, cols: int, row: int, col: int)
    requires
        0 <= k,
        0 <= col < cols,
        0 <= row,
    ensures
        k == row * cols + col <==> k / cols == row && k % cols == col,
{
    lemma_fundamental_div_mod(k, cols);
    if k == row * cols + col {
        lemma_fundamental_div_mod_converse(k, cols, row, col);
    }
    assert(cols * (k / cols) == (k / cols) * cols) by (nonlinear_arith);
}

/// A pass over the first `n` cells makes of each of them what it makes of that
/// cell alone.
proof fn lemma_sweep_is_shown(model: Model, pass: Pass, n: int, was: Look, at: (u16, u16))
    requires
        0 <= n <= model.shown_rows() * model.shown_cols(),
        at.0 < model.shown_rows(),
        at.1 < model.shown_cols(),
    ensures
        font_in_force(sweep_ops(model, pass, n), false) == sweep_font(model, pass, n),
        at.0 * model.shown_cols() + at.1 >= n ==> shown(
            sweep_ops(model, pass, n),
            false,
            was,
            at,
        ) == was,
        at.0 * model.shown_cols() + at.1 < n ==> exists|b: bool|
            shown(sweep_ops(model, pass, n), false, was, at) == shown(
                #[trigger] pass_ops(model, pass, at.0, at.1, b),
                b,
                was,
                at,
            ),
    decreases n,
{
    if n > 0 {
        let k = n - 1;
        let cols = model.shown_cols() as int;
        let rows = model.shown_rows() as int;
        lemma_sweep_is_shown(model, pass, k, was, at);
        lemma_cell_number(k, cols, at.0 as int, at.1 as int);
        lemma_fundamental_div_mod(k, cols);
        lemma_mod_bound(k, cols);
        assert(0 <= k / cols < rows) by (nonlinear_arith)
            requires
                k == cols * (k / cols) + k % cols,
                0 <= k % cols < cols,
                0 <= k < rows * cols,
        ;
        let row = (k / cols) as u16;
        let col = (k % cols) as u16;
        let b = sweep_font(model, pass, k);
        let first = sweep_ops(model, pass, k);
        let last = pass_ops(model, pass, row, col, b);
        lemma_shown_in_turn(first, last, false, was, at);
        lemma_pass_is_shown(model, pass, row, col, b, shown(first, false, was, at), at);
        if at.0 * cols + at.1 == k {
            assert((row, col) == at);
            assert(shown(sweep_ops(model, pass, n), false, was, at) == shown(last, b, was, at));
        }
    }
}

/// A frame shows the screen: whatever the canvas showed before, every cell of
/// the grid then looks as it ought to, and the visible cursor shows the cell
/// under it in swapped colors.
pub proof fn lemma_frames_show_the_screen(model: Model, bold: bool, was: Look, at: (u16, u16))
    requires
        at.0 < model.shown_rows(),
        at.1 < model.shown_cols(),
    ensures
        model.visible_cursor() != Some(at) ==> shown(frame(model), bold, was, at) == proper_look(
            painted_cell(model.screen(), at.0, at.1),
            model.highlights(at.0, at.1),
        ),
        model.visible_cursor() == Some(at) ==> exists|b: bool|
            shown(frame(model), bold, was, at) == #[trigger] cursor_look(
                cell_at(model.screen(), at.0, at.1),
                b,
            ),
{
    let cols = model.shown_cols() as int;
    let rows = model.shown_rows() as int;
    let n = rows * cols;
    assert(at.0 * cols + at.1 < n && 0 <= n) by (nonlinear_arith)
        requires
            0 <= at.0 < rows,
            0 <= at.1 < cols,
            n == rows * cols,
    ;
    let header = seq![OpView::Clear, OpView::Baseline, OpView::Font { bold: false }];
    let a = sweep_ops(model, Pass::Background, n);
    let b = sweep_ops(model, Pass::Highlight, n);
    let c = sweep_ops(model, Pass::Text, n);
    let d = cursor_ops(model.screen(), model.visible_cursor());
    let empty = Look { fill: 0x2b2b2b, ink: Ink::Bare };
    assert(header =~= frame_header(true));
    lemma_header_is_shown(true, bold, was, at);
    lemma_passes_keep_the_font(model, Pass::Background, n);
    lemma_passes_keep_the_font(model, Pass::Highlight, n);
    lemma_sweep_is_shown(model, Pass::Background, n, empty, at);
    let f1 = choose|f: bool|
        shown(a, false, empty, at) == shown(
            #[trigger] pass_ops(model, Pass::Background, at.0, at.1, f),
            f,
            empty,
            at,
        );
    lemma_pass_is_shown(model, Pass::Background, at.0, at.1, f1, empty, at);
    let after_a = shown(a, false, empty, at);
    lemma_sweep_is_shown(model, Pass::Highlight, n, after_a, at);
    let f2 = choose|f: bool|
        shown(b, false, after_a, at) == shown(
            #[trigger] pass_ops(model, Pass::Highlight, at.0, at.1, f),
            f,
            after_a,
            at,
        );
    lemma_pass_is_shown(model, Pass::Highlight, at.0, at.1, f2, after_a, at);
    let after_b = shown(b, false, after_a, at);
    lemma_sweep_is_shown(model, Pass::Text, n, after_b, at);
    let f3 = choose|f: bool|
        shown(c, false, after_b, at) == shown(
            #[trigger] pass_ops(model, Pass::Text, at.0, at.1, f),
            f,
            after_b,
            at,
        );
    lemma_pass_is_shown(model, Pass::Text, at.0, at.1, f3, after_b, at);
    let after_c = shown(c, false, after_b, at);
    lemma_shown_in_turn(header, a, bold, was, at);
    lemma_shown_in_turn(header + a, b, bold, was, at);
    lemma_shown_in_turn(header + a + b, c, bold, was, at);
    lemma_shown_in_turn(header + a + b + c, d, bold, was, at);
    let f = font_in_force(header + a + b + c, bold);
    lemma_cursor_is_shown(model.screen(), model.visible_cursor(), f, after_c, at);
    assert(frame(model) =~= header + a + b + c + d);
    if model.visible_cursor() == Some(at) {
        assert(shown(frame(model), bold, was, at) == cursor_look(
            cell_at(model.screen(), at.0, at.1),
            f,
        ));
    }
}

/// Only the text pass selects a font.
proof fn lemma_passes_keep_the_font(model: Model, pass: Pass, n: int)
    requires
        pass != Pass::Text,
    ensures
        !sweep_font(model, pass, n),
    decreases n,
{
    if n > 0 {
        lemma_passes_keep_the_font(model, pass, n - 1);
    }
}

/// The text of a selection is what is in view from its earlier end up to, and
/// not including, its later one.
pub proof fn lemma_text_between_stops_before_the_end(screen: vt100::Screen, a: (u16, u16), b: (u16, u16))
    requires
        reading_position(a) <= reading_position(b),
    ensures
        text_between(screen, a, b) == screen_text(screen, a, b),
{
}

/// The highlight of a selected cell goes up to the seams around it and has the
/// cell's own foreground color; other cells have none.
pub proof fn lemma_highlights_are_painted(model: Model, row: u16, col: u16, bold: bool)
    ensures
        ({
            let ops = pass_ops(model, Pass::Highlight, row, col, bold);
            let own = visual(
                painted_cell(model.screen(), row, col),
                0xf0f0f0,
                0x2b2b2b,
                CellOverride::Normal,
            );
            &&& model.highlights(row, col) ==> ops == seq![
                OpView::Highlight { row, col, color: own.0 },
            ]
            &&& !model.highlights(row, col) ==> ops.len() == 0
        }),
{
}

/// Resizing changes the grid and the emulator's screens, and nothing else.
pub proof fn lemma_resizing_keeps_the_selection(model: Model, rows: u16, cols: u16)
    ensures
        ({
            let after = model.resized(rows, cols);
            &&& (after.rows, after.cols) == (rows, cols)
            &&& after.parser == refitted(model.parser, rows, cols)
            &&& forall|row: u16, col: u16| #[trigger]
                after.highlights(row, col) == model.highlights(row, col)
            &&& (after.canvas_id, after.webgl2_available, after.fallback_mode) == (
                model.canvas_id,
                model.webgl2_available,
                model.fallback_mode,
            )
        }),
{
}

} // verus!
