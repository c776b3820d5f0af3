//! The client's terminal state: the emulator and everything that is kept
//! around it between two frames.

use crate::client::canvas::{
    cursor_look, lemma_frames_show_their_cells, proper_look, shown, Look,
};
use crate::client::cells::{add_cell, in_reading_order, lemma_reading_order_is_unique};
use crate::client::color::{visual, CellOverride, DEFAULT_BG};
use crate::client::mend::{
    fitting_cols, fitting_rows, lemma_blank_rows_are_whole, refit, refit_effect, refitted, would_cut,
};
use crate::client::paint::{
    all_cells, cell_ops, cells_ops, cursor_ops, frame_header, frame_ops, lemma_cells_do_not_clear,
    lemma_listed_cells_are_painted, ops_view, paint_frame, painted_cell, DrawOp, OpView,
};
use crate::client::screen::{
    at_most, blank_rows, cell_at, emulator_fed, emulator_made, emulator_resized, emulator_screen,
    emulator_scrolled, feedable, grid_cols, grid_rows, read_cell, screen_alternate, screen_cursor,
    screen_history, screen_limit, screen_rows, screen_size, shown_cols, shown_rows, vt_alternate,
    vt_clone, vt_cursor, vt_new, vt_process, vt_screen, vt_scrollback, vt_set_scrollback, CellView,
    Emulator,
};
use crate::client::scroll::{after_output, offset_of, with_offset, ScrollState};
use crate::client::selection::{covers, reading_position, SelectionMode, SelectionState};
use crate::client::stream::{
    carried, lemma_no_output_is_lost, normalize_save_restore, normalized, rewritten,
};
use crate::text::push_text;
use vstd::prelude::*;

verus! {

/// Rows of a new terminal.
pub const DEFAULT_ROWS: u16 = 24;

/// Columns of a new terminal.
pub const DEFAULT_COLS: u16 = 80;

/// Rows of history that the emulator keeps.
pub const SCROLLBACK_LEN: usize = 1024;

/// Which renderer draws the terminal.
#[derive(Clone, Copy, PartialEq, Eq, Structural, Debug)]
pub enum Renderer {
    /// Instanced drawing with a glyph atlas.
    WebGl2,
    /// Text drawing on a 2D canvas.
    Canvas2d,
}

/// The client's terminal.
pub struct TerminalState {
    /// The emulator.
    pub parser: Emulator,
    /// The renderer in use.
    pub renderer: Renderer,
    /// ID of the canvas element.
    pub canvas_id: String,
    /// Rows that fit on the canvas; 0 stands for the emulator's rows.
    pub rows: u16,
    /// Columns that fit on the canvas; 0 stands for the emulator's columns.
    pub cols: u16,
    /// Scroll positions.
    pub scroll: ScrollState,
    /// Selection.
    pub selection: SelectionState,
    /// The screen as it was last drawn on the 2D canvas.
    pub prev_screen: Option<vt100::Screen>,
    /// Cells that differ from how they were last drawn, in reading order.
    pub dirty_cells: Vec<(u16, u16)>,
    /// Whether the next frame has to paint every cell.
    pub full_redraw: bool,
    /// Where the last frame showed the cursor.
    pub prev_cursor: Option<(u16, u16)>,
    /// Whether a frame has been asked for.
    pub needs_render: bool,
    /// End of the output that may be the start of a cursor save/restore.
    pub csi_su_carry: Vec<u8>,
}

/// The mathematical value of a [`TerminalState`].
pub struct Model {
    pub parser: Emulator,
    pub renderer: Renderer,
    pub canvas_id: Seq<char>,
    pub rows: u16,
    pub cols: u16,
    pub scroll: ScrollState,
    pub selection: SelectionState,
    pub prev_screen: Option<vt100::Screen>,
    pub dirty: Seq<(u16, u16)>,
    pub full_redraw: bool,
    pub prev_cursor: Option<(u16, u16)>,
    pub needs_render: bool,
    pub carry: Seq<u8>,
}

impl View for TerminalState {
    type V = Model;

    open spec fn view(&self) -> Model {
        Model {
            parser: self.parser,
            renderer: self.renderer,
            canvas_id: self.canvas_id@,
            rows: self.rows,
            cols: self.cols,
            scroll: self.scroll,
            selection: self.selection,
            prev_screen: self.prev_screen,
            dirty: self.dirty_cells@,
            full_redraw: self.full_redraw,
            prev_cursor: self.prev_cursor,
            needs_render: self.needs_render,
            carry: self.csi_su_carry@,
        }
    }
}

impl Model {
    /// The screen that the emulator shows.
    pub open spec fn screen(self) -> vt100::Screen {
        emulator_screen(self.parser)
    }

    /// Whether the alternate screen is active.
    pub open spec fn alternate(self) -> bool {
        screen_alternate(self.screen())
    }

    /// Rows of history behind the active screen.
    pub open spec fn history(self) -> usize {
        screen_history(self.screen())
    }

    /// The recorded scroll offset of the active screen.
    pub open spec fn offset(self) -> usize {
        offset_of(self.scroll, self.alternate())
    }

    /// What always holds: the emulator can take output and has a limited
    /// history, no offset is beyond that limit, and the changed cells are in
    /// reading order.
    pub open spec fn wf(self) -> bool {
        &&& feedable(self.parser)
        &&& screen_limit(self.screen()) == SCROLLBACK_LEN
        &&& self.scroll.normal_offset <= SCROLLBACK_LEN
        &&& self.scroll.alternate_offset <= SCROLLBACK_LEN
        &&& self.scroll.saved_normal_offset_for_alt matches Some(n) ==> n <= SCROLLBACK_LEN
        &&& in_reading_order(self.dirty)
    }

    /// Rows of the painted grid.
    pub open spec fn shown_rows(self) -> u16 {
        grid_rows(self.rows, self.screen())
    }

    /// Columns of the painted grid.
    pub open spec fn shown_cols(self) -> u16 {
        grid_cols(self.cols, self.screen())
    }

    /// With a full redraw due, which makes single changed cells moot.
    pub open spec fn all_dirty(self) -> Model {
        Model { full_redraw: true, dirty: Seq::empty(), ..self }
    }

    /// Without a selection; dropping one takes a full redraw.
    pub open spec fn deselected(self) -> Model {
        let selection = SelectionState::empty();
        if self.selection.start is Some || self.selection.end is Some {
            Model { selection, ..self.all_dirty() }
        } else {
            Model { selection, ..self }
        }
    }

    /// With the emulator's view at the recorded offset.
    pub open spec fn view_applied(self) -> Model {
        Model { parser: emulator_scrolled(self.parser, self.offset()), ..self }
    }

    /// With the recorded offset of the active screen no larger than its
    /// history, and the emulator's view where it was recorded before.
    pub open spec fn clamped(self) -> Model {
        Model {
            scroll: if self.offset() > self.history() {
                with_offset(self.scroll, self.alternate(), self.history())
            } else {
                self.scroll
            },
            ..self.view_applied()
        }
    }

    /// Scrolled to `offset`, or as far back as the history reaches. Moving
    /// the view drops the selection; a full redraw is due in any case.
    pub open spec fn scrolled(self, offset: usize) -> Model {
        let scroll = if self.offset() != offset {
            with_offset(self.scroll, self.alternate(), at_most(offset, self.history()))
        } else {
            self.scroll
        };
        let moved = if self.offset() != offset {
            self.deselected()
        } else {
            self
        };
        Model {
            scroll,
            parser: emulator_scrolled(self.parser, offset_of(scroll, self.alternate())),
            ..moved
        }.all_dirty()
    }

    /// After `bytes` have reached the emulator, before the changed cells are
    /// worked out.
    pub open spec fn fed(self, bytes: Seq<u8>) -> Model {
        let ready = self.clamped();
        let parser = emulator_fed(ready.parser, normalized(self.carry, bytes));
        let before = self.alternate();
        let after = screen_alternate(emulator_screen(parser));
        let scroll = after_output(ready.scroll, before, after);
        let view_moves = (!before && after) || (before && !after
            && ready.scroll.saved_normal_offset_for_alt is Some);
        Model {
            parser: if view_moves {
                emulator_scrolled(parser, scroll.normal_offset)
            } else {
                parser
            },
            scroll,
            carry: carried(self.carry, bytes),
            ..ready
        }
    }

    /// The cursor cell to show: none when the view is scrolled into the
    /// history or the cursor is outside of the grid.
    pub open spec fn visible_cursor(self) -> Option<(u16, u16)> {
        let at = screen_cursor(self.screen());
        if self.offset() == 0 && at.0 < self.shown_rows() && at.1 < self.shown_cols() {
            Some(at)
        } else {
            None
        }
    }

    /// Whether the next frame paints every cell: when that is due anyway, or
    /// when at least half of the cells changed.
    pub open spec fn paints_all(self) -> bool {
        self.full_redraw || self.dirty.len() >= (self.shown_rows() * self.shown_cols()) / 2
    }

    /// Whether the next frame paints `cell`: every cell of the grid, or the
    /// changed ones, the cursor's and the one that showed it last.
    pub open spec fn paints(self, cell: (u16, u16)) -> bool {
        let inside = cell.0 < self.shown_rows() && cell.1 < self.shown_cols();
        if self.paints_all() {
            inside
        } else {
            self.dirty.contains(cell) || self.visible_cursor() == Some(cell) || (self.prev_cursor
                == Some(cell) && inside)
        }
    }

    /// Whether `ops` draw the next frame on a 2D canvas.
    pub open spec fn draws(self, ops: Seq<DrawOp>) -> bool {
        exists|cells: Seq<(u16, u16)>|
            {
                &&& in_reading_order(cells)
                &&& forall|c: (u16, u16)| #[trigger] cells.contains(c) <==> self.paints(c)
                &&& ops_view(ops) == #[trigger] frame_ops(
                    self.paints_all(),
                    self.screen(),
                    self.selection,
                    cells,
                    self.visible_cursor(),
                )
            }
    }

    /// After a frame has been drawn on a 2D canvas.
    pub open spec fn drawn(self) -> Model {
        Model {
            full_redraw: false,
            dirty: Seq::empty(),
            prev_screen: Some(self.screen()),
            prev_cursor: self.visible_cursor(),
            ..self
        }
    }
}

/// Whether two cells differ in anything that is painted or remembered of
/// them.
pub open spec fn looks_different(a: CellView, b: CellView) -> bool {
    a.contents != b.contents || a.fg != b.fg || a.bg != b.bg || a.bold != b.bold || a.dim != b.dim
        || a.italic != b.italic || a.underline != b.underline || a.inverse != b.inverse
}

/// Whether the cell at `at` differs between two screens.
pub open spec fn changed(a: vt100::Screen, b: vt100::Screen, at: (u16, u16)) -> bool {
    match (cell_at(a, at.0, at.1), cell_at(b, at.0, at.1)) {
        (Some(ca), Some(cb)) => looks_different(ca, cb),
        (None, None) => false,
        _ => true,
    }
}

/// The cell that shows the other half of the wide character at `at`.
pub open spec fn other_half(screen: vt100::Screen, cols: u16, at: (u16, u16)) -> Option<(u16, u16)> {
    match cell_at(screen, at.0, at.1) {
        Some(c) => if c.wide && at.1 + 1 < cols {
            Some((at.0, (at.1 + 1) as u16))
        } else if c.wide_continuation && at.1 > 0 {
            Some((at.0, (at.1 - 1) as u16))
        } else {
            None
        },
        None => None,
    }
}

/// Whether a change at `at` makes `cell` dirty: it is the changed cell, or
/// the other half of the wide character that is or was there.
pub open spec fn spreads_to(
    prev: vt100::Screen,
    screen: vt100::Screen,
    cols: u16,
    at: (u16, u16),
    cell: (u16, u16),
) -> bool {
    changed(prev, screen, at) && (cell == at || other_half(screen, cols, at) == Some(cell)
        || other_half(prev, cols, at) == Some(cell))
}

/// Whether `cell` has to be repainted when `prev` gives way to `screen`.
pub open spec fn is_dirty(
    prev: vt100::Screen,
    screen: vt100::Screen,
    rows: u16,
    cols: u16,
    cell: (u16, u16),
) -> bool {
    exists|at: (u16, u16)|
        at.0 < rows && at.1 < cols && #[trigger] spreads_to(prev, screen, cols, at, cell)
}

/// Whether `post` is `pre` with the changed cells worked out: nothing to do
/// when a full redraw is due, a full redraw when nothing was drawn yet, and
/// else the cells that differ from how they were last drawn.
pub open spec fn diffed(pre: Model, post: Model) -> bool {
    if pre.full_redraw {
        post == pre
    } else {
        match pre.prev_screen {
            None => post == Model { full_redraw: true, ..pre },
            Some(drawn) => {
                &&& post == Model { dirty: post.dirty, ..pre }
                &&& in_reading_order(post.dirty)
                &&& forall|c: (u16, u16)| #[trigger]
                    post.dirty.contains(c) <==> is_dirty(
                        drawn,
                        pre.screen(),
                        pre.shown_rows(),
                        pre.shown_cols(),
                        c,
                    )
            },
        }
    }
}

/// Whether `ops` draw the terminal `before` on a 2D canvas, which leaves it as
/// `after`: they paint what changed by then, or the whole grid.
pub open spec fn canvas_drawn(before: Model, after: Model, ops: Seq<DrawOp>) -> bool {
    exists|due: Model|
        #[trigger] diffed(before, due) && after == due.drawn() && due.draws(ops)
}

/// Whether `frame` draws the terminal `before`, which leaves it as `after`.
pub open spec fn rendered(before: Model, after: Model, frame: Frame) -> bool {
    let shown = Model { needs_render: false, ..before.view_applied() };
    match frame {
        Frame::Gpu { selection, cursor } => {
            &&& shown.renderer == Renderer::WebGl2
            &&& after == shown
            &&& shown.gpu_input(selection@, cursor)
        },
        Frame::Canvas { ops } => {
            &&& shown.renderer == Renderer::Canvas2d
            &&& canvas_drawn(shown, after, ops@)
        },
    }
}

/// Whether the cell at (`row`, `col`) differs between two screens.
fn cell_changed(a: &vt100::Screen, b: &vt100::Screen, row: u16, col: u16) -> (differs: bool)
    ensures
        differs == changed(*a, *b, (row, col)),
{
    match (read_cell(a, row, col), read_cell(b, row, col)) {
        (Some(ca), Some(cb)) => {
            !(ca.contents == cb.contents) || ca.fg != cb.fg || ca.bg != cb.bg || ca.bold != cb.bold
                || ca.dim != cb.dim || ca.italic != cb.italic || ca.underline != cb.underline
                || ca.inverse != cb.inverse
        },
        (None, None) => false,
        _ => true,
    }
}

/// The cell that shows the other half of the wide character at (`row`, `col`).
fn wide_partner(screen: &vt100::Screen, cols: u16, row: u16, col: u16) -> (partner: Option<(u16, u16)>)
    requires
        col < cols,
    ensures
        partner == other_half(*screen, cols, (row, col)),
{
    match read_cell(screen, row, col) {
        Some(c) => if c.wide && col + 1 < cols {
            Some((row, col + 1))
        } else if c.wide_continuation && col > 0 {
            Some((row, col - 1))
        } else {
            None
        },
        None => None,
    }
}

/// The cells to repaint when `prev` gives way to `screen`.
fn dirty_between(prev: &vt100::Screen, screen: &vt100::Screen, rows: u16, cols: u16) -> (dirty: Vec<
    (u16, u16),
>)
    ensures
        in_reading_order(dirty@),
        forall|c: (u16, u16)| #[trigger]
            dirty@.contains(c) <==> is_dirty(*prev, *screen, rows, cols, c),
{
    let mut dirty: Vec<(u16, u16)> = Vec::new();
    let mut row: u16 = 0;
    while row < rows
        invariant
            row <= rows,
            in_reading_order(dirty@),
            forall|c: (u16, u16)| #[trigger]
                dirty@.contains(c) <==> is_dirty(*prev, *screen, row, cols, c),
        decreases rows - row,
    {
        let mut col: u16 = 0;
        while col < cols
            invariant
                row < rows,
                col <= cols,
                in_reading_order(dirty@),
                forall|c: (u16, u16)| #[trigger]
                    dirty@.contains(c) <==> is_dirty(*prev, *screen, row, cols, c) || (exists|
                        k: u16,
                    |
                        k < col && #[trigger] spreads_to(*prev, *screen, cols, (row, k), c)),
            decreases cols - col,
        {
            let ghost before = dirty@;
            if cell_changed(prev, screen, row, col) {
                add_cell(&mut dirty, (row, col));
                if let Some(partner) = wide_partner(screen, cols, row, col) {
                    add_cell(&mut dirty, partner);
                }
                if let Some(partner) = wide_partner(prev, cols, row, col) {
                    add_cell(&mut dirty, partner);
                }
            }
            assert(forall|c: (u16, u16)| #[trigger]
                dirty@.contains(c) <==> before.contains(c) || spreads_to(
                    *prev,
                    *screen,
                    cols,
                    (row, col),
                    c,
                ));
            col += 1;
        }
        assert forall|c: (u16, u16)| #[trigger]
            dirty@.contains(c) <==> is_dirty(*prev, *screen, (row + 1) as u16, cols, c) by {
            if is_dirty(*prev, *screen, (row + 1) as u16, cols, c) {
                let at = choose|at: (u16, u16)|
                    at.0 < row + 1 && at.1 < cols && #[trigger] spreads_to(
                        *prev,
                        *screen,
                        cols,
                        at,
                        c,
                    );
                if at.0 == row {
                    assert(at == (row, at.1));
                    assert(spreads_to(*prev, *screen, cols, (row, at.1), c));
                } else {
                    assert(is_dirty(*prev, *screen, row, cols, c));
                }
            }
        }
        row += 1;
    }
    dirty
}

/// What a frame takes to draw.
pub enum Frame {
    /// Input of the WebGL2 renderer: the selected cells and the cursor.
    Gpu { selection: Vec<(u16, u16)>, cursor: (u16, u16) },
    /// Operations on the 2D canvas.
    Canvas { ops: Vec<DrawOp> },
}

impl TerminalState {
    /// The recorded scroll offset of the active screen.
    fn active_scroll_offset(&self) -> (offset: usize)
        ensures
            offset == self@.offset(),
    {
        self.scroll.offset(vt_alternate(vt_screen(&self.parser)))
    }

    /// Rows of history behind the active screen. The emulator tells them only
    /// by being scrolled back as far as it goes; its view is then put where it
    /// was recorded.
    fn active_scrollback_len(&mut self) -> (rows: usize)
        ensures
            rows == old(self)@.history(),
            rows <= screen_limit(old(self)@.screen()),
            final(self)@ == old(self)@.view_applied(),
            final(self)@.screen_like(old(self)@),
    {
        let offset: usize = self.active_scroll_offset();
        vt_set_scrollback(&mut self.parser, usize::MAX);
        let max: usize = vt_scrollback(vt_screen(&self.parser));
        vt_set_scrollback(&mut self.parser, offset);
        max
    }

    /// Limits the recorded offset to the history.
    fn clamp_scroll(&mut self)
        ensures
            final(self)@ == old(self)@.clamped(),
            final(self)@.screen_like(old(self)@),
            old(self)@.history() <= screen_limit(old(self)@.screen()),
    {
        let max: usize = self.active_scrollback_len();
        let cur: usize = self.active_scroll_offset();
        if cur > max {
            let alternate: bool = vt_alternate(vt_screen(&self.parser));
            self.scroll.set_offset(alternate, max);
        }
    }

    /// Puts the emulator's view at the recorded offset.
    fn apply_scrollback(&mut self)
        ensures
            final(self)@ == old(self)@.view_applied(),
            final(self)@.screen_like(old(self)@),
    {
        let offset: usize = self.active_scroll_offset();
        vt_set_scrollback(&mut self.parser, offset);
    }

    /// Creates the terminal for the canvas element `canvas_id`, given whether
    /// the element was found, which drawing contexts it offers, and how many
    /// rows and columns fit on it where its size is known. WebGL2 is preferred
    /// to the 2D canvas.
    pub fn new(
        canvas_id: &str,
        canvas_found: bool,
        webgl2: bool,
        canvas2d: bool,
        rows: Option<u16>,
        cols: Option<u16>,
    ) -> (state: Result<TerminalState, String>)
        ensures
            match state {
                Ok(s) => {
                    &&& canvas_found && (webgl2 || canvas2d)
                    &&& s@ == Model::fresh(
                        canvas_id@,
                        if webgl2 {
                            Renderer::WebGl2
                        } else {
                            Renderer::Canvas2d
                        },
                        rows,
                        cols,
                    )
                    &&& s@.wf()
                    &&& screen_size(s@.screen()) == (DEFAULT_ROWS, DEFAULT_COLS)
                    &&& screen_rows(s@.screen(), false) == blank_rows(DEFAULT_ROWS, DEFAULT_COLS)
                    &&& screen_rows(s@.screen(), true) == Seq::<Seq<CellView>>::empty()
                    &&& s@.offset() == 0
                    &&& s@.history() == 0
                },
                Err(e) => {
                    if !canvas_found {
                        e@ == "canvas '#"@ + canvas_id@ + "' not found"@
                    } else {
                        !webgl2 && !canvas2d && e@
                            == "no rendering context available (WebGL2 and Canvas 2D both failed)"@
                    }
                },
            },
    {
        if !canvas_found {
            let mut e: String = "canvas '#".to_owned();
            push_text(&mut e, canvas_id);
            push_text(&mut e, "' not found");
            return Err(e);
        }
        if !webgl2 && !canvas2d {
            return Err(
                "no rendering context available (WebGL2 and Canvas 2D both failed)".to_owned(),
            );
        }
        let state = TerminalState {
            parser: vt_new(DEFAULT_ROWS, DEFAULT_COLS, SCROLLBACK_LEN),
            renderer: if webgl2 {
                Renderer::WebGl2
            } else {
                Renderer::Canvas2d
            },
            canvas_id: canvas_id.to_owned(),
            rows: match rows {
                Some(n) => n,
                None => DEFAULT_ROWS,
            },
            cols: match cols {
                Some(n) => n,
                None => DEFAULT_COLS,
            },
            scroll: ScrollState::new(),
            selection: SelectionState::new(),
            prev_screen: None,
            dirty_cells: Vec::new(),
            full_redraw: true,
            prev_cursor: None,
            needs_render: false,
            csi_su_carry: Vec::new(),
        };
        proof {
            lemma_blank_rows_are_whole();
        }
        Ok(state)
    }

    /// Feeds output of the terminal program to the emulator and works out
    /// which cells differ from how they were last drawn.
    pub fn process_bytes(&mut self, bytes: &[u8])
        requires
            old(self)@.wf(),
        ensures
            diffed(old(self)@.fed(bytes@), final(self)@),
            final(self)@.wf(),
            screen_size(final(self)@.screen()) == screen_size(old(self)@.screen()),
    {
        let before: bool = vt_alternate(vt_screen(&self.parser));
        self.clamp_scroll();
        let normalized: Vec<u8> = normalize_save_restore(bytes, &mut self.csi_su_carry);
        vt_process(&mut self.parser, normalized.as_slice());
        let after: bool = vt_alternate(vt_screen(&self.parser));
        if !before && after {
            self.scroll.saved_normal_offset_for_alt = Some(self.scroll.normal_offset);
            vt_set_scrollback(&mut self.parser, self.scroll.normal_offset);
        } else if before && !after {
            if let Some(saved) = self.scroll.saved_normal_offset_for_alt {
                self.scroll.saved_normal_offset_for_alt = None;
                self.scroll.normal_offset = saved;
                vt_set_scrollback(&mut self.parser, saved);
            }
        }
        assert(self@ == old(self)@.fed(bytes@));
        self.compute_dirty_cells();
    }

    /// Makes a full redraw due.
    pub fn mark_all_dirty(&mut self)
        ensures
            final(self)@ == old(self)@.all_dirty(),
    {
        self.full_redraw = true;
        self.dirty_cells.clear();
    }

    /// Compares the screen with the one that was last drawn and records the
    /// cells that differ, together with the other half of a wide character,
    /// so that a wide character is always repainted as a whole.
    pub fn compute_dirty_cells(&mut self)
        requires
            old(self)@.wf(),
        ensures
            diffed(old(self)@, final(self)@),
            final(self)@.wf(),
    {
        if self.full_redraw {
            return ;
        }
        let rows: u16 = shown_rows(self.rows, vt_screen(&self.parser));
        let cols: u16 = shown_cols(self.cols, vt_screen(&self.parser));
        match &self.prev_screen {
            Some(drawn) => {
                self.dirty_cells = dirty_between(drawn, vt_screen(&self.parser), rows, cols);
            },
            None => {
                self.full_redraw = true;
            },
        }
    }

    /// Rows of history behind the active screen.
    pub fn scrollback_len(&mut self) -> (rows: usize)
        requires
            old(self)@.wf(),
        ensures
            rows == old(self)@.history(),
            rows <= SCROLLBACK_LEN,
            final(self)@ == old(self)@.view_applied(),
            final(self)@.wf(),
            screen_size(final(self)@.screen()) == screen_size(old(self)@.screen()),
    {
        self.active_scrollback_len()
    }

    /// How far the active screen is scrolled back (0 = at the bottom).
    pub fn scroll_offset(&self) -> (offset: usize)
        ensures
            offset == self@.offset(),
    {
        self.active_scroll_offset()
    }

    /// Scrolls the active screen to `offset`, or as far back as the history
    /// reaches.
    pub fn set_scroll_offset(&mut self, offset: usize)
        requires
            old(self)@.wf(),
        ensures
            final(self)@ == old(self)@.scrolled(offset),
            final(self)@.wf(),
            screen_size(final(self)@.screen()) == screen_size(old(self)@.screen()),
            final(self)@.history() == old(self)@.history(),
            final(self)@.offset() == old(self)@.offset_after_scroll(offset),
    {
        let current: usize = self.active_scroll_offset();
        if current != offset {
            self.clear_selection();
            let alternate: bool = vt_alternate(vt_screen(&self.parser));
            self.scroll.set_offset(alternate, offset);
            self.clamp_scroll();
        }
        self.apply_scrollback();
        self.mark_all_dirty();
    }

    /// Scrolls by `delta` rows, back into the history when it is positive.
    /// Returns the resulting offset.
    pub fn scroll_by(&mut self, delta: isize) -> (offset: usize)
        requires
            old(self)@.wf(),
            old(self)@.offset() + delta <= isize::MAX,
        ensures
            final(self)@ == old(self)@.scrolled(moved_by(old(self)@.offset(), delta)),
            final(self)@.wf(),
            screen_size(final(self)@.screen()) == screen_size(old(self)@.screen()),
            offset == final(self)@.offset(),
            offset == old(self)@.offset_after_scroll(moved_by(old(self)@.offset(), delta)),
    {
        let cur: isize = self.active_scroll_offset() as isize;
        let sum: isize = cur + delta;
        let next: isize = if sum < 0 {
            0
        } else {
            sum
        };
        self.set_scroll_offset(next as usize);
        self.active_scroll_offset()
    }

    /// Scrolls to the bottom.
    pub fn scroll_to_bottom(&mut self)
        requires
            old(self)@.wf(),
        ensures
            final(self)@ == old(self)@.scrolled(0),
            final(self)@.wf(),
            screen_size(final(self)@.screen()) == screen_size(old(self)@.screen()),
            final(self)@.offset() == 0,
    {
        self.set_scroll_offset(0);
    }

    /// Scrolls to the oldest row of the history.
    pub fn scroll_to_top(&mut self)
        requires
            old(self)@.wf(),
        ensures
            final(self)@ == old(self)@.scrolled(old(self)@.history()),
            final(self)@.wf(),
            screen_size(final(self)@.screen()) == screen_size(old(self)@.screen()),
            final(self)@.offset() == old(self)@.history(),
    {
        let max: usize = self.active_scrollback_len();
        self.set_scroll_offset(max);
    }

    /// Works out the next frame.
    pub fn render(&mut self) -> (frame: Frame)
        requires
            old(self)@.wf(),
        ensures
            final(self)@.wf(),
            final(self)@.offset() == old(self)@.offset(),
            screen_size(final(self)@.screen()) == screen_size(old(self)@.screen()),
            rendered(old(self)@, final(self)@, frame),
    {
        self.needs_render = false;
        self.apply_scrollback();
        match self.renderer {
            Renderer::WebGl2 => {
                let cursor: (u16, u16) = if self.active_scroll_offset() == 0 {
                    vt_cursor(vt_screen(&self.parser))
                } else {
                    (u16::MAX, u16::MAX)
                };
                Frame::Gpu { selection: self.selection_cells(), cursor }
            },
            Renderer::Canvas2d => Frame::Canvas { ops: self.render_canvas2d() },
        }
    }

    /// The selected cells of the grid, in reading order.
    pub fn selection_cells(&self) -> (cells: Vec<(u16, u16)>)
        ensures
            in_reading_order(cells@),
            forall|c: (u16, u16)| #[trigger]
                cells@.contains(c) <==> covers(self@.selection, c) && (c.1 < self@.cols || c.1 == 0),
    {
        self.selection.cells(self.cols)
    }

    /// Works out the drawing operations of the next frame on a 2D canvas:
    /// the whole grid, or only the cells that changed since the last one.
    pub fn render_canvas2d(&mut self) -> (ops: Vec<DrawOp>)
        requires
            old(self)@.wf(),
        ensures
            canvas_drawn(old(self)@, final(self)@, ops@),
            final(self)@.wf(),
            final(self)@.parser == old(self)@.parser,
            final(self)@.scroll == old(self)@.scroll,
    {
        self.compute_dirty_cells();
        let ghost due = self@;
        let rows: u16 = shown_rows(self.rows, vt_screen(&self.parser));
        let cols: u16 = shown_cols(self.cols, vt_screen(&self.parser));
        proof {
            assert(rows * cols <= 65535 * 65535) by (nonlinear_arith)
                requires
                    rows <= 65535,
                    cols <= 65535,
            ;
        }
        let total: u64 = rows as u64 * cols as u64;
        let full: bool = self.full_redraw || self.dirty_cells.len() as u64 >= total / 2;
        self.full_redraw = false;
        let mut dirty: Vec<(u16, u16)> = Vec::new();
        dirty.append(&mut self.dirty_cells);
        let cursor: Option<(u16, u16)> = self.visible_cursor(rows, cols);
        let cells: Vec<(u16, u16)> = if full {
            all_cells(rows, cols)
        } else {
            if let Some(at) = cursor {
                add_cell(&mut dirty, at);
            }
            if let Some(at) = self.prev_cursor {
                if at.0 < rows && at.1 < cols {
                    add_cell(&mut dirty, at);
                }
            }
            dirty
        };
        let ops: Vec<DrawOp> = paint_frame(
            full,
            vt_screen(&self.parser),
            &self.selection,
            &cells,
            cursor,
        );
        self.prev_cursor = cursor;
        self.prev_screen = Some(vt_clone(vt_screen(&self.parser)));
        assert(full == due.paints_all());
        assert(forall|c: (u16, u16)| #[trigger] cells@.contains(c) <==> due.paints(c));
        assert(ops_view(ops@) == frame_ops(
            due.paints_all(),
            due.screen(),
            due.selection,
            cells@,
            due.visible_cursor(),
        ));
        assert(due.draws(ops@));
        assert(self@ == due.drawn());
        ops
    }

    /// The cursor cell to show, or `None` when the view is scrolled into the
    /// history or the cursor is outside of the grid.
    fn visible_cursor(&self, rows: u16, cols: u16) -> (cursor: Option<(u16, u16)>)
        requires
            rows == self@.shown_rows(),
            cols == self@.shown_cols(),
        ensures
            cursor == self@.visible_cursor(),
    {
        if self.active_scroll_offset() != 0 {
            return None;
        }
        let at: (u16, u16) = vt_cursor(vt_screen(&self.parser));
        if at.0 < rows && at.1 < cols {
            Some(at)
        } else {
            None
        }
    }

    /// Asks for a frame. However often it is asked for before the next frame,
    /// one is drawn.
    pub fn schedule_render(&mut self)
        ensures
            final(self)@ == (Model { needs_render: true, ..old(self)@ }),
    {
        self.needs_render = true;
    }

    /// Whether the cell at (`row`, `col`) is selected.
    pub fn selected(&self, row: u16, col: u16) -> (selected: bool)
        ensures
            selected == covers(self@.selection, (row, col)),
    {
        self.selection.is_selected(row, col)
    }

    /// Starts a selection at (`row`, `col`).
    pub fn handle_selection_start(&mut self, row: u16, col: u16)
        ensures
            final(self)@ == old(self)@.selecting(row, col),
    {
        self.selection.mode = SelectionMode::Line;
        self.selection.start = Some((row, col));
        self.selection.end = None;
        self.mark_all_dirty();
    }

    /// Moves the end of the selection to (`row`, `col`).
    pub fn handle_selection_update(&mut self, row: u16, col: u16)
        ensures
            final(self)@ == old(self)@.selected_to(row, col),
    {
        match self.selection.end {
            Some(end) => {
                if end.0 != row || end.1 != col {
                    self.selection.end = Some((row, col));
                    self.mark_all_dirty();
                }
            },
            None => {
                if self.selection.start.is_some() {
                    self.selection.end = Some((row, col));
                    self.mark_all_dirty();
                }
            },
        }
    }

    /// Drops the selection.
    pub fn clear_selection(&mut self)
        ensures
            final(self)@ == old(self)@.deselected(),
    {
        if self.selection.start.is_some() || self.selection.end.is_some() {
            self.mark_all_dirty();
        }
        self.selection.clear();
    }

    /// The ID of the canvas element.
    pub fn canvas_id(&self) -> (id: &str)
        ensures
            id@ == self@.canvas_id,
    {
        self.canvas_id.as_str()
    }

    /// Rows and columns that fit on the canvas.
    pub fn size(&self) -> (size: (u16, u16))
        ensures
            size == (self@.rows, self@.cols),
    {
        (self.rows, self.cols)
    }

    /// The emulator's screen.
    pub fn parser_screen(&self) -> (screen: &vt100::Screen)
        ensures
            *screen == self@.screen(),
    {
        vt_screen(&self.parser)
    }

    /// The cell where the selection was started.
    pub fn selection_start(&self) -> (start: Option<(u16, u16)>)
        ensures
            start == self@.selection.start,
    {
        self.selection.start
    }

    /// The cell where the selection ends.
    pub fn selection_end(&self) -> (end: Option<(u16, u16)>)
        ensures
            end == self@.selection.end,
    {
        self.selection.end
    }

    /// The selection mode.
    pub fn selection_mode(&self) -> (mode: SelectionMode)
        ensures
            mode == self@.selection.mode,
    {
        self.selection.mode
    }

    /// Records how many rows and columns fit on the canvas.
    pub fn set_dims(&mut self, rows: u16, cols: u16)
        ensures
            final(self)@ == (Model { rows, cols, ..old(self)@ }),
    {
        self.rows = rows;
        self.cols = cols;
    }

    /// Resizes the emulator's screens, as far as they stay fit for output. A
    /// wide character that would be cut in two is lost.
    pub fn resize_screen(&mut self, rows: u16, cols: u16)
        requires
            old(self)@.wf(),
        ensures
            final(self)@ == old(self)@.resized(rows, cols),
            refit_effect(
                old(self)@.screen(),
                final(self)@.screen(),
                fitting_rows(rows),
                fitting_cols(cols),
            ),
            !would_cut(old(self)@.screen(), fitting_cols(cols)) ==> final(self)@.parser
                == emulator_resized(old(self)@.parser, fitting_rows(rows), fitting_cols(cols)),
            final(self)@.offset() == old(self)@.offset(),
            final(self)@.history() == old(self)@.history(),
            final(self)@.wf(),
    {
        refit(&mut self.parser, rows, cols);
    }
}

/// The offset `delta` rows away from `offset`, not below the bottom.
pub open spec fn moved_by(offset: usize, delta: isize) -> usize {
    if offset + delta < 0 {
        0
    } else {
        (offset + delta) as usize
    }
}

impl Model {
    /// A new terminal: a blank emulator of the default size with the default
    /// history, and a full redraw due.
    pub open spec fn fresh(
        canvas_id: Seq<char>,
        renderer: Renderer,
        rows: Option<u16>,
        cols: Option<u16>,
    ) -> Model {
        Model {
            parser: emulator_made(DEFAULT_ROWS, DEFAULT_COLS, SCROLLBACK_LEN),
            renderer,
            canvas_id,
            rows: match rows {
                Some(n) => n,
                None => DEFAULT_ROWS,
            },
            cols: match cols {
                Some(n) => n,
                None => DEFAULT_COLS,
            },
            scroll: ScrollState {
                saved_normal_offset_for_alt: None,
                normal_offset: 0,
                alternate_offset: 0,
            },
            selection: SelectionState::empty(),
            prev_screen: None,
            dirty: Seq::empty(),
            full_redraw: true,
            prev_cursor: None,
            needs_render: false,
            carry: Seq::empty(),
        }
    }

    /// With the emulator's screens resized.
    pub open spec fn resized(self, rows: u16, cols: u16) -> Model {
        Model { parser: refitted(self.parser, rows, cols), ..self }
    }

    /// The recorded offset after scrolling to `offset`: not beyond the history,
    /// unless that is where it already was.
    pub open spec fn offset_after_scroll(self, offset: usize) -> usize {
        if self.offset() == offset {
            offset
        } else {
            at_most(offset, self.history())
        }
    }

    /// Whether the WebGL2 renderer is handed the selected cells of the grid
    /// and the cursor, or an impossible cursor when the view is scrolled into
    /// the history.
    pub open spec fn gpu_input(self, selection: Seq<(u16, u16)>, cursor: (u16, u16)) -> bool {
        &&& in_reading_order(selection)
        &&& forall|c: (u16, u16)| #[trigger]
            selection.contains(c) <==> covers(self.selection, c) && (c.1 < self.cols || c.1 == 0)
        &&& cursor == if self.offset() == 0 {
            screen_cursor(self.screen())
        } else {
            (u16::MAX, u16::MAX)
        }
    }

    /// With a selection that starts at a cell and has no end yet.
    pub open spec fn selecting(self, row: u16, col: u16) -> Model {
        Model {
            selection: SelectionState {
                mode: SelectionMode::Line,
                start: Some((row, col)),
                end: None,
            },
            ..self.all_dirty()
        }
    }

    /// With the end of the selection at a cell. A selection that was not
    /// started gets no end, and an end that stays where it is takes no redraw.
    pub open spec fn selected_to(self, row: u16, col: u16) -> Model {
        if self.selection.end == Some((row, col)) || (self.selection.start is None
            && self.selection.end is None) {
            self
        } else {
            Model {
                selection: SelectionState { end: Some((row, col)), ..self.selection },
                ..self.all_dirty()
            }
        }
    }

    /// Whether nothing but the view of the emulator differs.
    pub open spec fn screen_like(self, other: Model) -> bool {
        &&& self.alternate() == other.alternate()
        &&& self.history() == other.history()
        &&& screen_limit(self.screen()) == screen_limit(other.screen())
        &&& screen_size(self.screen()) == screen_size(other.screen())
        &&& screen_cursor(self.screen()) == screen_cursor(other.screen())
        &&& screen_rows(self.screen(), false) == screen_rows(other.screen(), false)
        &&& screen_rows(self.screen(), true) == screen_rows(other.screen(), true)
        &&& forall|n: usize| #[trigger]
            emulator_scrolled(self.parser, n) == emulator_scrolled(other.parser, n)
    }
}

/// Whether `states` are those of a terminal that is fed one piece of output
/// after the other, without a frame in between.
pub open spec fn fed_in_turn(outputs: Seq<Seq<u8>>, states: Seq<Model>) -> bool {
    &&& states.len() == outputs.len() + 1
    &&& forall|i: int|
        0 <= i < outputs.len() ==> diffed(
            states[i].fed(#[trigger] outputs[i]),
            states[i + 1],
        )
}

/// However much output comes between two frames, every cell of the grid that
/// differs from how it was last drawn is among the changed cells, or a full
/// redraw is due.
pub proof fn lemma_changes_since_the_last_frame_are_kept(
    outputs: Seq<Seq<u8>>,
    states: Seq<Model>,
    drawn: vt100::Screen,
    at: (u16, u16),
)
    requires
        fed_in_turn(outputs, states),
        outputs.len() > 0,
        states[0].prev_screen == Some(drawn),
        at.0 < states.last().shown_rows(),
        at.1 < states.last().shown_cols(),
        changed(drawn, states.last().screen(), at),
    ensures
        states.last().prev_screen == Some(drawn),
        states.last().full_redraw || states.last().dirty.contains(at),
{
    lemma_output_keeps_the_drawn_screen(outputs, states);
    let n = outputs.len() - 1;
    let pre = states[n].fed(outputs[n]);
    let post = states[n + 1];
    assert(diffed(pre, post));
    if !pre.full_redraw {
        assert(spreads_to(drawn, pre.screen(), pre.shown_cols(), at, at));
        assert(is_dirty(drawn, pre.screen(), pre.shown_rows(), pre.shown_cols(), at));
    }
}

/// Output does not change what is known to have been drawn.
proof fn lemma_output_keeps_the_drawn_screen(outputs: Seq<Seq<u8>>, states: Seq<Model>)
    requires
        fed_in_turn(outputs, states),
    ensures
        states.last().prev_screen == states[0].prev_screen,
        outputs.len() > 0 ==> states[outputs.len() - 1].prev_screen == states[0].prev_screen,
    decreases outputs.len(),
{
    if outputs.len() > 0 {
        let fewer = outputs.drop_last();
        let rest = states.drop_last();
        assert forall|i: int| 0 <= i < fewer.len() implies diffed(
            rest[i].fed(#[trigger] fewer[i]),
            rest[i + 1],
        ) by {
            assert(fewer[i] == outputs[i]);
        }
        lemma_output_keeps_the_drawn_screen(fewer, rest);
        let n = outputs.len() - 1;
        assert(diffed(states[n].fed(outputs[n]), states[n + 1]));
    }
}

/// A frame paints every cell of the grid that differs from how it was last
/// drawn, be it because it is dirty or because a full redraw is due.
pub proof fn lemma_changed_cells_are_painted(pre: Model, post: Model, drawn: vt100::Screen, at: (u16, u16))
    requires
        diffed(pre, post),
        pre.prev_screen == Some(drawn),
        at.0 < pre.shown_rows(),
        at.1 < pre.shown_cols(),
        changed(drawn, pre.screen(), at),
    ensures
        post.paints(at),
{
    if !pre.full_redraw {
        assert(spreads_to(drawn, pre.screen(), pre.shown_cols(), at, at));
        assert(is_dirty(drawn, pre.screen(), pre.shown_rows(), pre.shown_cols(), at));
        assert(post.dirty.contains(at));
    }
}

/// A frame brings the 2D canvas up to date: every cell of the grid that
/// differs from how it was last drawn is filled anew, and what is known to
/// have been drawn is then the screen of this frame.
pub proof fn lemma_frames_bring_the_canvas_up_to_date(
    before: Model,
    after: Model,
    ops: Seq<DrawOp>,
    drawn: vt100::Screen,
    at: (u16, u16),
)
    requires
        canvas_drawn(before, after, ops),
        before.prev_screen == Some(drawn),
        at.0 < before.shown_rows(),
        at.1 < before.shown_cols(),
        changed(drawn, before.screen(), at),
    ensures
        after.prev_screen == Some(before.screen()),
        ops_view(ops).contains(
            (OpView::Fill { row: at.0, col: at.1, color: DEFAULT_BG as int }),
        ),
{
    let due = choose|due: Model| #[trigger]
        diffed(before, due) && after == due.drawn() && due.draws(ops);
    lemma_changed_cells_are_painted(before, due, drawn, at);
    let cells = choose|cells: Seq<(u16, u16)>|
        {
            &&& in_reading_order(cells)
            &&& forall|c: (u16, u16)| #[trigger] cells.contains(c) <==> due.paints(c)
            &&& ops_view(ops) == #[trigger] frame_ops(
                due.paints_all(),
                due.screen(),
                due.selection,
                cells,
                due.visible_cursor(),
            )
        };
    assert(cells.contains(at));
    lemma_listed_cells_are_painted(due.screen(), due.selection, cells, at);
    let fill = OpView::Fill { row: at.0, col: at.1, color: DEFAULT_BG as int };
    let header = frame_header(due.paints_all());
    let body = cells_ops(due.screen(), due.selection, cells);
    let i = choose|i: int| 0 <= i < body.len() && body[i] == fill;
    assert(ops_view(ops)[header.len() + i] == fill);
}

/// A wide character is repainted as a whole: where one half changed, the
/// other half is painted too, both of the new and of the old character.
pub proof fn lemma_wide_characters_are_painted_whole(
    pre: Model,
    post: Model,
    drawn: vt100::Screen,
    at: (u16, u16),
    half: (u16, u16),
)
    requires
        diffed(pre, post),
        pre.prev_screen == Some(drawn),
        at.0 < pre.shown_rows(),
        at.1 < pre.shown_cols(),
        changed(drawn, pre.screen(), at),
        other_half(pre.screen(), pre.shown_cols(), at) == Some(half) || other_half(
            drawn,
            pre.shown_cols(),
            at,
        ) == Some(half),
    ensures
        post.paints(half),
{
    if !pre.full_redraw {
        assert(spreads_to(drawn, pre.screen(), pre.shown_cols(), at, half));
        assert(is_dirty(drawn, pre.screen(), pre.shown_rows(), pre.shown_cols(), half));
        assert(post.dirty.contains(half));
    }
}

/// A frame of changed cells leaves all others as they are: it clears the
/// canvas only where it paints the whole grid.
pub proof fn lemma_partial_frames_do_not_clear(model: Model, ops: Seq<DrawOp>, i: int)
    requires
        model.draws(ops),
        0 <= i < ops.len(),
        ops[i]@ == OpView::Clear,
    ensures
        model.paints_all(),
{
    let cells = choose|cells: Seq<(u16, u16)>|
        {
            &&& in_reading_order(cells)
            &&& forall|c: (u16, u16)| #[trigger] cells.contains(c) <==> model.paints(c)
            &&& ops_view(ops) == #[trigger] frame_ops(
                model.paints_all(),
                model.screen(),
                model.selection,
                cells,
                model.visible_cursor(),
            )
        };
    assert(ops_view(ops)[i] == OpView::Clear);
    if !model.paints_all() {
        lemma_cells_do_not_clear(model.screen(), model.selection, cells);
        let header = frame_header(false);
        let body = cells_ops(model.screen(), model.selection, cells);
        let tail = cursor_ops(model.screen(), model.visible_cursor());
        assert(header =~= seq![OpView::Baseline, OpView::Font { bold: false }]);
        let all = header + body + tail;
        assert(ops_view(ops) == all);
        assert(i < all.len());
        let k = i - header.len();
        if k < 0 {
            assert(all[i] == header[i]);
        } else if k < body.len() {
            assert(all[i] == body[k]);
        } else {
            assert(all[i] == tail[k - body.len()]);
            assert(tail[k - body.len()] != OpView::Clear);
        }
    }
}

/// Dirty cells never lie outside of the grid.
pub proof fn lemma_dirty_cells_are_in_the_grid(
    prev: vt100::Screen,
    screen: vt100::Screen,
    rows: u16,
    cols: u16,
    cell: (u16, u16),
)
    requires
        is_dirty(prev, screen, rows, cols, cell),
    ensures
        cell.0 < rows && cell.1 < cols,
{
}

/// A screen that did not change leaves nothing to repaint.
pub proof fn lemma_unchanged_screen_is_clean(screen: vt100::Screen, rows: u16, cols: u16, cell: (u16, u16))
    ensures
        !is_dirty(screen, screen, rows, cols, cell),
{
}

/// A frame is determined by the terminal that it shows.
pub proof fn lemma_frame_is_determined(model: Model, a: Seq<DrawOp>, b: Seq<DrawOp>)
    requires
        model.draws(a),
        model.draws(b),
    ensures
        ops_view(a) == ops_view(b),
{
    let ca = choose|cells: Seq<(u16, u16)>|
        {
            &&& in_reading_order(cells)
            &&& forall|c: (u16, u16)| #[trigger] cells.contains(c) <==> model.paints(c)
            &&& ops_view(a) == #[trigger] frame_ops(
                model.paints_all(),
                model.screen(),
                model.selection,
                cells,
                model.visible_cursor(),
            )
        };
    let cb = choose|cells: Seq<(u16, u16)>|
        {
            &&& in_reading_order(cells)
            &&& forall|c: (u16, u16)| #[trigger] cells.contains(c) <==> model.paints(c)
            &&& ops_view(b) == #[trigger] frame_ops(
                model.paints_all(),
                model.screen(),
                model.selection,
                cells,
                model.visible_cursor(),
            )
        };
    lemma_reading_order_is_unique(ca, cb);
}

/// The cursor is hidden while the view is scrolled into the history.
pub proof fn lemma_cursor_is_hidden_in_history(model: Model)
    requires
        model.offset() != 0,
    ensures
        model.visible_cursor() is None,
{
}

/// After a frame has been drawn nothing but the cursor is left to draw.
pub proof fn lemma_drawn_frame_leaves_only_the_cursor(model: Model, due: Model, cell: (u16, u16))
    requires
        diffed(model.drawn(), due),
        due.paints(cell),
        model.shown_rows() * model.shown_cols() >= 2,
    ensures
        model.visible_cursor() == Some(cell),
{
    let m = model.drawn();
    assert(due.screen() == model.screen());
    assert(due.visible_cursor() == model.visible_cursor());
    assert forall|c: (u16, u16)| !#[trigger] due.dirty.contains(c) by {
        lemma_unchanged_screen_is_clean(model.screen(), m.shown_rows(), m.shown_cols(), c);
    }
    if due.dirty.len() > 0 {
        assert(due.dirty.contains(due.dirty[0]));
    }
    assert(!due.paints_all());
}

/// However often a frame is asked for before one is drawn, the effect is that
/// of asking once.
pub proof fn lemma_frame_requests_coalesce(model: Model)
    ensures
        ({
            let once = Model { needs_render: true, ..model };
            once == Model { needs_render: true, ..once }
        }),
{
}

/// A selection covers the two cells that it was made between, whatever was
/// selected before, and after it has been dropped no cell is covered.
pub proof fn lemma_selection_is_made_and_dropped(model: Model, a: (u16, u16), b: (u16, u16), c: (u16, u16))
    ensures
        ({
            let made = model.selecting(a.0, a.1).selected_to(b.0, b.1);
            &&& covers(made.selection, a)
            &&& covers(made.selection, b)
            &&& made.full_redraw
            &&& !covers(made.deselected().selection, c)
        }),
{
}

/// Scrolling never goes beyond the history, unless the view was recorded
/// beyond it already.
pub proof fn lemma_scrolling_stays_in_history(model: Model, offset: usize)
    requires
        model.offset() <= model.history(),
    ensures
        model.offset_after_scroll(offset) <= model.history(),
        offset <= model.history() ==> model.offset_after_scroll(offset) == offset,
{
}

/// Every difference counts: a cell is unchanged exactly where it is the same on
/// both screens in everything but the marks of the two halves of a wide
/// character, or is missing on both.
pub proof fn lemma_every_difference_counts(a: vt100::Screen, b: vt100::Screen, at: (u16, u16))
    ensures
        !changed(a, b, at) <==> match (cell_at(a, at.0, at.1), cell_at(b, at.0, at.1)) {
            (Some(x), Some(y)) => x == (CellView {
                wide: x.wide,
                wide_continuation: x.wide_continuation,
                ..y
            }),
            (None, None) => true,
            _ => false,
        },
{
}

/// A cell that is unchanged has the same colors on both screens, under every
/// override and with whatever default colors.
pub proof fn lemma_recolored_cells_are_changed(
    a: vt100::Screen,
    b: vt100::Screen,
    at: (u16, u16),
    default_fg: u32,
    default_bg: u32,
    state: CellOverride,
)
    requires
        visual(cell_at(a, at.0, at.1), default_fg, default_bg, state) != visual(
            cell_at(b, at.0, at.1),
            default_fg,
            default_bg,
            state,
        ),
    ensures
        changed(a, b, at),
{
}

/// A cell of the grid that is not dirty takes the very same operations to
/// paint on both screens, selected or not and whichever font is selected, and
/// looks the same under the cursor.
pub proof fn lemma_clean_cells_look_the_same(
    prev: vt100::Screen,
    screen: vt100::Screen,
    rows: u16,
    cols: u16,
    at: (u16, u16),
    selection: SelectionState,
    bold: bool,
)
    requires
        at.0 < rows,
        at.1 < cols,
        screen_size(prev) == screen_size(screen),
        !is_dirty(prev, screen, rows, cols, at),
    ensures
        cell_ops(prev, selection, at.0, at.1, bold) == cell_ops(screen, selection, at.0, at.1, bold),
        cursor_ops(prev, Some(at)) == cursor_ops(screen, Some(at)),
        proper_look(painted_cell(prev, at.0, at.1), covers(selection, at)) == proper_look(
            painted_cell(screen, at.0, at.1),
            covers(selection, at),
        ),
{
    assert(!spreads_to(prev, screen, cols, at, at));
}

/// Whether the canvas, of which `canvas` tells what each cell shows, is in step
/// with the terminal: every cell of the grid but the cursor's looks as it
/// ought to on the screen that was last drawn, unless a full redraw is due.
pub open spec fn in_step(model: Model, canvas: spec_fn((u16, u16)) -> Look) -> bool {
    model.full_redraw || match model.prev_screen {
        None => true,
        Some(drawn) => {
            &&& screen_size(drawn) == screen_size(model.screen())
            &&& forall|at: (u16, u16)|
                at.0 < model.shown_rows() && at.1 < model.shown_cols() && model.prev_cursor != Some(at)
                    ==> #[trigger] canvas(at) == proper_look(
                    painted_cell(drawn, at.0, at.1),
                    covers(model.selection, at),
                )
        },
    }
}

/// A frame shows the screen: with a canvas in step, every cell of the grid
/// then looks as it ought to on the terminal's screen, and the visible cursor
/// shows the cell under it in swapped colors.
pub proof fn lemma_frames_show_the_screen(
    before: Model,
    after: Model,
    ops: Seq<DrawOp>,
    canvas: spec_fn((u16, u16)) -> Look,
    bold: bool,
    at: (u16, u16),
)
    requires
        canvas_drawn(before, after, ops),
        in_step(before, canvas),
        at.0 < before.shown_rows(),
        at.1 < before.shown_cols(),
    ensures
        before.visible_cursor() != Some(at) ==> shown(ops_view(ops), bold, canvas(at), at)
            == proper_look(painted_cell(before.screen(), at.0, at.1), covers(before.selection, at)),
        before.visible_cursor() == Some(at) ==> exists|b: bool|
            shown(ops_view(ops), bold, canvas(at), at) == #[trigger] cursor_look(
                cell_at(before.screen(), at.0, at.1),
                b,
            ),
{
    let due = choose|due: Model| #[trigger]
        diffed(before, due) && after == due.drawn() && due.draws(ops);
    let cells = choose|cells: Seq<(u16, u16)>|
        {
            &&& in_reading_order(cells)
            &&& forall|c: (u16, u16)| #[trigger] cells.contains(c) <==> due.paints(c)
            &&& ops_view(ops) == #[trigger] frame_ops(
                due.paints_all(),
                due.screen(),
                due.selection,
                cells,
                due.visible_cursor(),
            )
        };
    lemma_frames_show_their_cells(
        due.paints_all(),
        due.screen(),
        due.selection,
        cells,
        due.visible_cursor(),
        bold,
        canvas(at),
        at,
    );
    assert(cells.contains(at) <==> due.paints(at));
    assert(due.visible_cursor() == before.visible_cursor());
    if !cells.contains(at) {
        let drawn = before.prev_screen->0;
        assert(!due.dirty.contains(at));
        lemma_clean_cells_look_the_same(
            drawn,
            before.screen(),
            before.shown_rows(),
            before.shown_cols(),
            at,
            before.selection,
            bold,
        );
    }
}

/// Drawing a frame leaves the canvas in step with the terminal.
pub proof fn lemma_frames_leave_the_canvas_in_step(
    before: Model,
    after: Model,
    ops: Seq<DrawOp>,
    canvas: spec_fn((u16, u16)) -> Look,
    bold: bool,
)
    requires
        canvas_drawn(before, after, ops),
        in_step(before, canvas),
    ensures
        in_step(after, |at: (u16, u16)| shown(ops_view(ops), bold, canvas(at), at)),
        !after.full_redraw,
        after.dirty.len() == 0,
{
    let later = |at: (u16, u16)| shown(ops_view(ops), bold, canvas(at), at);
    let due = choose|due: Model| #[trigger]
        diffed(before, due) && after == due.drawn() && due.draws(ops);
    assert(due.visible_cursor() == before.visible_cursor());
    assert forall|at: (u16, u16)|
        at.0 < after.shown_rows() && at.1 < after.shown_cols() && after.prev_cursor != Some(
            at,
        ) implies #[trigger] later(at) == proper_look(
        painted_cell(before.screen(), at.0, at.1),
        covers(after.selection, at),
    ) by {
        lemma_frames_show_the_screen(before, after, ops, canvas, bold, at);
    }
}

/// Nothing that happens to the terminal between two frames takes the canvas
/// out of step: what alters the look of unchanged cells makes a full redraw
/// due.
pub proof fn lemma_the_canvas_stays_in_step(
    model: Model,
    canvas: spec_fn((u16, u16)) -> Look,
    cell: (u16, u16),
    offset: usize,
)
    requires
        in_step(model, canvas),
    ensures
        in_step(model.selecting(cell.0, cell.1), canvas),
        in_step(model.selected_to(cell.0, cell.1), canvas),
        in_step(model.deselected(), canvas),
        in_step(model.scrolled(offset), canvas),
        in_step(model.all_dirty(), canvas),
{
    let to = model.selected_to(cell.0, cell.1);
    let none = model.deselected();
    if !none.full_redraw && none.prev_screen is Some {
        assert forall|at: (u16, u16)|
            at.0 < none.shown_rows() && at.1 < none.shown_cols() && none.prev_cursor != Some(
                at,
            ) implies #[trigger] canvas(at) == proper_look(
            painted_cell(none.prev_screen->0, at.0, at.1),
            covers(none.selection, at),
        ) by {
            assert(!covers(none.selection, at) && !covers(model.selection, at));
        }
    }
}

/// Output leaves the canvas in step as long as the screens keep their size.
pub proof fn lemma_output_keeps_the_canvas_in_step(
    model: Model,
    bytes: Seq<u8>,
    after: Model,
    canvas: spec_fn((u16, u16)) -> Look,
)
    requires
        in_step(model, canvas),
        diffed(model.fed(bytes), after),
        screen_size(after.screen()) == screen_size(model.screen()),
    ensures
        in_step(after, canvas),
{
}

/// At least half of the grid has to have changed for a frame to paint all of
/// it without need.
pub proof fn lemma_small_changes_take_small_frames(model: Model)
    ensures
        !model.full_redraw ==> (model.paints_all() <==> 2 * model.dirty.len() + 1
            >= model.shown_rows() * model.shown_cols()),
        model.full_redraw ==> model.paints_all(),
{
}

/// The cursor is shown where it is, as long as that is inside of the grid and
/// the view is at the bottom; a frame that does not paint all cells paints
/// the one that showed it last.
pub proof fn lemma_cursor_is_shown_at_the_bottom(model: Model, at: (u16, u16))
    requires
        at.0 < model.shown_rows(),
        at.1 < model.shown_cols(),
    ensures
        model.visible_cursor() == Some(at) <==> model.offset() == 0 && screen_cursor(model.screen())
            == at,
        model.visible_cursor() == Some(at) ==> model.paints(at),
        model.prev_cursor == Some(at) ==> model.paints(at),
{
}

/// Scrolling by a number of rows moves the view by that many, or as many as
/// there are up to the oldest row or down to the bottom.
pub proof fn lemma_scrolling_moves_by_rows(model: Model, delta: isize)
    requires
        model.offset() <= model.history(),
        model.offset() + delta <= isize::MAX,
    ensures
        ({
            let wanted = model.offset() + delta;
            let reached = model.offset_after_scroll(moved_by(model.offset(), delta));
            &&& 0 <= wanted <= model.history() ==> reached == wanted
            &&& wanted < 0 ==> reached == 0
            &&& wanted > model.history() ==> reached == model.history()
        }),
{
}

/// Scrolling back and forth by the same number of rows ends where it started,
/// as long as the history reaches that far.
pub proof fn lemma_scrolling_back_and_forth(offset: usize, delta: isize)
    requires
        0 <= offset + delta <= isize::MAX,
        offset <= isize::MAX,
        delta > isize::MIN,
    ensures
        moved_by(moved_by(offset, delta), (-delta) as isize) == offset,
{
}

/// Scrolling puts the emulator's view at the offset that is recorded, leaves
/// the other screen where it was, and drops the selection exactly where it
/// moves to another offset.
pub proof fn lemma_scrolling_moves_the_view(model: Model, offset: usize)
    ensures
        ({
            let after = model.scrolled(offset);
            let alternate = model.alternate();
            &&& offset_of(after.scroll, alternate) == model.offset_after_scroll(offset)
            &&& after.parser == emulator_scrolled(model.parser, offset_of(after.scroll, alternate))
            &&& offset_of(after.scroll, !alternate) == offset_of(model.scroll, !alternate)
            &&& after.scroll.saved_normal_offset_for_alt == model.scroll.saved_normal_offset_for_alt
            &&& after.full_redraw && after.dirty.len() == 0
            &&& offset != model.offset() ==> after.selection == SelectionState::empty()
            &&& offset == model.offset() ==> after.selection == model.selection
            &&& (after.rows, after.cols, after.carry, after.prev_screen, after.prev_cursor) == (
                model.rows,
                model.cols,
                model.carry,
                model.prev_screen,
                model.prev_cursor,
            )
        }),
{
}

/// Limiting the offset to the history keeps one that is in it, and moves any
/// other to the oldest row.
pub proof fn lemma_offsets_are_limited_to_the_history(model: Model)
    ensures
        ({
            let offset = offset_of(model.clamped().scroll, model.alternate());
            &&& offset <= model.history() && offset <= model.offset()
            &&& offset == model.history() || offset == model.offset()
            &&& offset_of(model.clamped().scroll, !model.alternate()) == offset_of(
                model.scroll,
                !model.alternate(),
            )
        }),
{
}

/// A selection that is made covers what lies between the two cells and nothing
/// else, and nothing is covered until it has an end.
pub proof fn lemma_selection_covers_what_was_selected(
    model: Model,
    a: (u16, u16),
    b: (u16, u16),
    c: (u16, u16),
)
    ensures
        ({
            let begun = model.selecting(a.0, a.1);
            let made = begun.selected_to(b.0, b.1);
            let (p, q, x) = (reading_position(a), reading_position(b), reading_position(c));
            &&& !covers(begun.selection, c)
            &&& covers(made.selection, c) <==> (p <= x || q <= x) && (x <= p || x <= q)
            &&& made.selection.mode == SelectionMode::Line
            &&& begun.full_redraw && made.full_redraw && made.dirty.len() == 0
            &&& (made.parser, made.scroll, made.prev_screen) == (
                model.parser,
                model.scroll,
                model.prev_screen,
            )
        }),
        model.selection.start is None && model.selection.end is None ==> model.selected_to(b.0, b.1)
            == model,
        model.deselected().selection.mode == SelectionMode::Idle,
{
}

/// The end of a selection can be moved as often as one likes: the last place
/// counts.
pub proof fn lemma_last_end_of_a_selection_counts(model: Model, b: (u16, u16), c: (u16, u16))
    ensures
        model.selected_to(b.0, b.1).selected_to(c.0, c.1).selection == model.selected_to(
            c.0,
            c.1,
        ).selection,
        model.selection.start is Some ==> model.selected_to(c.0, c.1).selection.end == Some(c),
        model.selected_to(c.0, c.1).selection.start == model.selection.start,
{
}

/// Only changed cells and their direct neighbours in the row are dirty.
pub proof fn lemma_dirty_cells_are_next_to_changes(
    prev: vt100::Screen,
    screen: vt100::Screen,
    rows: u16,
    cols: u16,
    cell: (u16, u16),
)
    requires
        is_dirty(prev, screen, rows, cols, cell),
    ensures
        exists|col: u16|
            col < cols && col - 1 <= cell.1 <= col + 1 && #[trigger] changed(prev, screen, (cell.0, col)),
{
    let at = choose|at: (u16, u16)|
        at.0 < rows && at.1 < cols && #[trigger] spreads_to(prev, screen, cols, at, cell);
    assert(changed(prev, screen, (cell.0, at.1)));
}

/// Where a wide character comes or goes, both of its halves are dirty: the
/// cell behind a changed first half and the one before a changed second half.
pub proof fn lemma_both_halves_are_dirty(
    prev: vt100::Screen,
    screen: vt100::Screen,
    rows: u16,
    cols: u16,
    row: u16,
    col: u16,
    new: bool,
)
    requires
        row < rows,
        col < cols,
        changed(prev, screen, (row, col)),
        cell_at(if new { screen } else { prev }, row, col) is Some,
    ensures
        ({
            let cell = cell_at(if new { screen } else { prev }, row, col)->0;
            &&& is_dirty(prev, screen, rows, cols, (row, col))
            &&& cell.wide && col + 1 < cols ==> is_dirty(
                prev,
                screen,
                rows,
                cols,
                (row, (col + 1) as u16),
            )
            &&& cell.wide_continuation && !cell.wide && col > 0 ==> is_dirty(
                prev,
                screen,
                rows,
                cols,
                (row, (col - 1) as u16),
            )
        }),
{
    let at = (row, col);
    assert(spreads_to(prev, screen, cols, at, at));
    let cell = cell_at(if new { screen } else { prev }, row, col)->0;
    if cell.wide && col + 1 < cols {
        assert(spreads_to(prev, screen, cols, at, (row, (col + 1) as u16)));
    }
    if cell.wide_continuation && !cell.wide && col > 0 {
        assert(spreads_to(prev, screen, cols, at, (row, (col - 1) as u16)));
    }
}

/// A frame that does not paint all cells paints none but the changed ones and
/// those that show the cursor or showed it last.
pub proof fn lemma_small_frames_paint_what_they_must(model: Model, cell: (u16, u16))
    requires
        !model.paints_all(),
        model.paints(cell),
    ensures
        model.dirty.contains(cell) || model.visible_cursor() == Some(cell) || model.prev_cursor
            == Some(cell),
{
}

/// What the WebGL2 renderer is handed: every selected cell of the grid once,
/// no other cell, and the cursor where it is unless the view is scrolled into
/// the history.
pub proof fn lemma_gpu_input_is_determined(
    model: Model,
    selection: Seq<(u16, u16)>,
    cursor: (u16, u16),
    other: Seq<(u16, u16)>,
    other_cursor: (u16, u16),
    i: int,
)
    requires
        model.gpu_input(selection, cursor),
        model.gpu_input(other, other_cursor),
    ensures
        selection == other && cursor == other_cursor,
        0 <= i < selection.len() ==> covers(model.selection, selection[i]),
        model.offset() == 0 ==> cursor == screen_cursor(model.screen()),
        model.offset() > 0 ==> cursor == (65535u16, 65535u16),
        forall|c: (u16, u16)|
            covers(model.selection, c) && c.1 < model.cols ==> #[trigger] selection.contains(c),
{
    assert forall|c: (u16, u16)| #[trigger] selection.contains(c) <==> other.contains(c) by {}
    lemma_reading_order_is_unique(selection, other);
    if 0 <= i < selection.len() {
        assert(selection.contains(selection[i]));
    }
}

/// A new terminal has 24 rows and 80 columns unless the canvas says otherwise,
/// keeps 1024 rows of history, shows nothing selected and is drawn in full.
pub proof fn lemma_fresh_terminals(
    canvas_id: Seq<char>,
    renderer: Renderer,
    rows: Option<u16>,
    cols: Option<u16>,
)
    ensures
        ({
            let model = Model::fresh(canvas_id, renderer, rows, cols);
            &&& model.parser == emulator_made(24, 80, 1024)
            &&& model.rows == if rows is Some { rows->0 } else { 24 }
            &&& model.cols == if cols is Some { cols->0 } else { 80 }
            &&& model.canvas_id == canvas_id && model.renderer == renderer
            &&& model.offset() == 0
            &&& forall|c: (u16, u16)| !#[trigger] covers(model.selection, c)
            &&& model.paints_all() && !model.needs_render && model.carry.len() == 0
        }),
{
}

/// What output does to the terminal: the emulator, with its view where it was
/// recorded, is fed the rewritten output up to what is held back. As long as
/// the screen is not changed its view then stays; when it is, the view goes
/// where the normal screen was left. Nothing else changes until the changed
/// cells are worked out.
pub proof fn lemma_output_reaches_the_emulator(model: Model, bytes: Seq<u8>)
    ensures
        ({
            let after = model.fed(bytes);
            let viewed = emulator_scrolled(model.parser, model.offset());
            let fed = emulator_fed(viewed, normalized(model.carry, bytes));
            let alternate = screen_alternate(emulator_screen(fed));
            &&& normalized(model.carry, bytes) + after.carry == rewritten(model.carry + bytes)
            &&& alternate == model.alternate() ==> after.parser == fed
            &&& alternate == model.alternate() ==> offset_of(after.scroll, alternate) <= model.offset()
            &&& alternate && !model.alternate() ==> after.scroll.saved_normal_offset_for_alt == Some(
                after.scroll.normal_offset,
            ) && after.parser == emulator_scrolled(fed, after.scroll.normal_offset)
            &&& !alternate && model.alternate() ==> match model.scroll.saved_normal_offset_for_alt {
                Some(saved) => after.scroll.normal_offset == saved && after.parser
                    == emulator_scrolled(fed, saved) && after.scroll.saved_normal_offset_for_alt
                    is None,
                None => after.scroll.normal_offset == model.scroll.normal_offset && after.parser
                    == fed,
            }
            &&& after == (Model {
                parser: after.parser,
                scroll: after.scroll,
                carry: after.carry,
                ..model
            })
        }),
{
    lemma_no_output_is_lost(model.carry, bytes);
}

/// The view is put at the offset that is recorded for the active screen.
pub proof fn lemma_the_view_is_where_it_is_recorded(model: Model)
    ensures
        model.alternate() ==> model.view_applied().parser == emulator_scrolled(
            model.parser,
            model.scroll.alternate_offset,
        ),
        !model.alternate() ==> model.view_applied().parser == emulator_scrolled(
            model.parser,
            model.scroll.normal_offset,
        ),
        model.view_applied() == (Model { parser: model.view_applied().parser, ..model }),
{
}

/// Drawing a frame answers the request for one, draws with the renderer in use,
/// and changes neither the scroll positions nor the selection. On a 2D canvas
/// nothing is left to draw then.
pub proof fn lemma_frames_answer_the_request(before: Model, after: Model, frame: Frame)
    requires
        rendered(before, after, frame),
    ensures
        !after.needs_render,
        frame is Gpu <==> before.renderer == Renderer::WebGl2,
        after.parser == emulator_scrolled(before.parser, before.offset()),
        (after.scroll, after.selection, after.carry) == (
            before.scroll,
            before.selection,
            before.carry,
        ),
        (after.rows, after.cols, after.canvas_id, after.renderer) == (
            before.rows,
            before.cols,
            before.canvas_id,
            before.renderer,
        ),
        frame is Canvas ==> after.prev_screen == Some(after.screen()) && !after.full_redraw
            && after.dirty.len() == 0 && after.prev_cursor == after.visible_cursor(),
        frame is Gpu ==> (after.prev_screen, after.dirty, after.full_redraw, after.prev_cursor) == (
            before.prev_screen,
            before.dirty,
            before.full_redraw,
            before.prev_cursor,
        ),
{
    if let Frame::Canvas { ops } = frame {
        let shown = Model { needs_render: false, ..before.view_applied() };
        let due = choose|due: Model| #[trigger]
            diffed(shown, due) && after == due.drawn() && due.draws(ops@);
        assert(due.visible_cursor() == after.visible_cursor());
    }
}

} // verus!
