//! The operations that the page calls on the one terminal it may have.
//!
//! Before the terminal has been initialized there is nothing to operate on,
//! and every operation says so in its result.

use crate::client::mend::{fitting_cols, fitting_rows, refit_effect};
use crate::client::query::{collect_query_replies, replies};
use crate::client::screen::{screen_cursor, vt_cursor};
use crate::client::selection::{can_extract, extract_selection, extractable, selection_text};
use crate::client::state::{diffed, moved_by, rendered, Frame, Model, TerminalState};
use vstd::prelude::*;

verus! {

/// Summary of a processed chunk of output.
#[derive(Clone, Copy, PartialEq, Eq, Structural, Debug)]
pub struct Processed {
    /// Bytes of the chunk.
    pub byte_count: usize,
    /// Rows of the terminal.
    pub rows: u16,
    /// Columns of the terminal.
    pub cols: u16,
}

/// Whether the terminal, if there is one, is well-formed.
pub open spec fn ready(state: Option<TerminalState>) -> bool {
    state matches Some(s) ==> s@.wf()
}

/// Feeds a chunk of output to the terminal and asks for a frame.
pub fn process_bytes(state: &mut Option<TerminalState>, bytes: &[u8]) -> (summary: Option<Processed>)
    requires
        ready(*old(state)),
    ensures
        ready(*final(state)),
        match (*old(state), *final(state), summary) {
            (Some(s0), Some(s1), Some(p)) => {
                &&& diffed(
                    s0@.fed(bytes@),
                    Model { needs_render: s0@.needs_render, ..s1@ },
                )
                &&& s1@.needs_render
                &&& p == (Processed {
                    byte_count: bytes@.len() as usize,
                    rows: s0@.rows,
                    cols: s0@.cols,
                })
            },
            (None, None, None) => true,
            _ => false,
        },
{
    match state {
        Some(s) => {
            s.process_bytes(bytes);
            s.schedule_render();
            Some(Processed { byte_count: bytes.len(), rows: s.rows, cols: s.cols })
        },
        None => None,
    }
}

/// The replies to the queries in a chunk of output.
pub fn query_replies(state: &Option<TerminalState>, bytes: &[u8]) -> (out: Option<Vec<u8>>)
    ensures
        match (*state, out) {
            (Some(s), Some(r)) => {
                let at = screen_cursor(s@.screen());
                r@ == replies(bytes@, at.0 as nat, at.1 as nat)
            },
            (None, None) => true,
            _ => false,
        },
{
    match state {
        Some(s) => {
            let (row, col): (u16, u16) = vt_cursor(s.parser_screen());
            Some(collect_query_replies(bytes, row as usize, col as usize))
        },
        None => None,
    }
}

/// Draws every cell anew.
pub fn repaint(state: &mut Option<TerminalState>) -> (frame: Option<Frame>)
    requires
        ready(*old(state)),
    ensures
        ready(*final(state)),
        match (*old(state), *final(state), frame) {
            (Some(s0), Some(s1), Some(f)) => rendered(s0@.all_dirty(), s1@, f),
            (None, None, None) => true,
            _ => false,
        },
{
    match state {
        Some(s) => {
            s.mark_all_dirty();
            Some(s.render())
        },
        None => None,
    }
}

/// The larger of two numbers.
pub open spec fn at_least(n: u16, limit: u16) -> u16 {
    if n < limit {
        limit
    } else {
        n
    }
}

/// Takes over the number of columns and rows that fit on the resized canvas,
/// but at least two columns and one row. Returns the new rows and columns.
pub fn handle_resize(state: &mut Option<TerminalState>, cols: u16, rows: u16) -> (size: Option<
    (u16, u16),
>)
    requires
        ready(*old(state)),
    ensures
        ready(*final(state)),
        match (*old(state), *final(state), size) {
            (Some(s0), Some(s1), Some(n)) => {
                &&& n == (at_least(rows, 1), at_least(cols, 2))
                &&& s1@ == Model {
                    rows: n.0,
                    cols: n.1,
                    ..s0@.resized(n.0, n.1).all_dirty()
                }
                &&& refit_effect(
                    s0@.screen(),
                    s1@.screen(),
                    fitting_rows(n.0),
                    fitting_cols(n.1),
                )
            },
            (None, None, None) => true,
            _ => false,
        },
{
    match state {
        Some(s) => {
            let cols: u16 = if cols < 2 {
                2
            } else {
                cols
            };
            let rows: u16 = if rows < 1 {
                1
            } else {
                rows
            };
            s.resize_screen(rows, cols);
            s.set_dims(rows, cols);
            s.mark_all_dirty();
            Some((rows, cols))
        },
        None => None,
    }
}

/// The version of the terminal.
pub fn version() -> (text: String)
    ensures
        text@ == "krust-terminal 0.3.0"@,
{
    "krust-terminal 0.3.0".to_owned()
}

/// The name of the selection mode.
pub fn selection_mode(state: &Option<TerminalState>) -> (name: String)
    ensures
        name@ == match *state {
            Some(s) => s@.selection.mode.label(),
            None => "None"@,
        },
{
    match state {
        Some(s) => s.selection_mode().name(),
        None => "None".to_owned(),
    }
}

/// Whether the text of the selection, if there is one, can be read.
pub open spec fn selection_extractable(model: Model) -> bool {
    match (model.selection.start, model.selection.end) {
        (Some(a), Some(b)) => extractable(model.screen(), a, b),
        _ => true,
    }
}

/// The selected text; empty without a selection.
pub fn selected_text(state: &Option<TerminalState>) -> (text: String)
    requires
        *state matches Some(s) ==> selection_extractable(s@),
    ensures
        text@ == match *state {
            Some(s) => match (s@.selection.start, s@.selection.end) {
                (Some(a), Some(b)) => selection_text(s@.screen(), a, b),
                _ => Seq::empty(),
            },
            None => Seq::empty(),
        },
{
    match state {
        Some(s) => match (s.selection_start(), s.selection_end()) {
            (Some(start), Some(end)) => extract_selection(s.parser_screen(), start, end),
            _ => String::new(),
        },
        None => String::new(),
    }
}

/// The selected text, empty without a selection, or `None` when the emulator
/// cannot read it.
pub fn try_selected_text(state: &Option<TerminalState>) -> (text: Option<String>)
    ensures
        match *state {
            Some(s) => match (s@.selection.start, s@.selection.end) {
                (Some(a), Some(b)) => match text {
                    Some(t) => extractable(s@.screen(), a, b) && t@ == selection_text(
                        s@.screen(),
                        a,
                        b,
                    ),
                    None => !extractable(s@.screen(), a, b),
                },
                _ => text matches Some(t) && t@ == Seq::<char>::empty(),
            },
            None => text matches Some(t) && t@ == Seq::<char>::empty(),
        },
{
    match state {
        Some(s) => match (s.selection_start(), s.selection_end()) {
            (Some(start), Some(end)) => if can_extract(s.parser_screen(), start, end) {
                Some(selected_text(state))
            } else {
                None
            },
            _ => Some(selected_text(state)),
        },
        None => Some(selected_text(state)),
    }
}

/// Selects the text between two cells.
pub fn set_selection(
    state: &mut Option<TerminalState>,
    start_row: u16,
    start_col: u16,
    end_row: u16,
    end_col: u16,
)
    ensures
        ready(*old(state)) ==> ready(*final(state)),
        match (*old(state), *final(state)) {
            (Some(s0), Some(s1)) => s1@ == s0@.selecting(start_row, start_col).selected_to(
                end_row,
                end_col,
            ),
            (None, None) => true,
            _ => false,
        },
{
    if let Some(s) = state {
        s.handle_selection_start(start_row, start_col);
        s.handle_selection_update(end_row, end_col);
    }
}

/// Drops the selection and draws a frame.
pub fn clear_selection(state: &mut Option<TerminalState>) -> (frame: Option<Frame>)
    requires
        ready(*old(state)),
    ensures
        ready(*final(state)),
        match (*old(state), *final(state), frame) {
            (Some(s0), Some(s1), Some(f)) => rendered(s0@.deselected(), s1@, f),
            (None, None, None) => true,
            _ => false,
        },
{
    match state {
        Some(s) => {
            s.clear_selection();
            Some(s.render())
        },
        None => None,
    }
}

/// Scrolls by `delta` rows and draws a frame. Returns the resulting offset.
pub fn scroll(state: &mut Option<TerminalState>, delta: isize) -> (result: (u32, Option<Frame>))
    requires
        ready(*old(state)),
        *old(state) matches Some(s) ==> s@.offset() + delta <= isize::MAX,
    ensures
        ready(*final(state)),
        match (*old(state), *final(state), result.1) {
            (Some(s0), Some(s1), Some(f)) => {
                &&& rendered(s0@.scrolled(moved_by(s0@.offset(), delta)), s1@, f)
                &&& result.0 == s1@.offset()
                &&& s1@.offset() == s0@.offset_after_scroll(moved_by(s0@.offset(), delta))
            },
            (None, None, None) => result.0 == 0,
            _ => false,
        },
{
    match state {
        Some(s) => {
            s.scroll_by(delta);
            let frame: Frame = s.render();
            (s.scroll_offset() as u32, Some(frame))
        },
        None => (0, None),
    }
}

/// Scrolls to the bottom and draws a frame.
pub fn scroll_to_bottom(state: &mut Option<TerminalState>) -> (frame: Option<Frame>)
    requires
        ready(*old(state)),
    ensures
        ready(*final(state)),
        match (*old(state), *final(state), frame) {
            (Some(s0), Some(s1), Some(f)) => {
                &&& rendered(s0@.scrolled(0), s1@, f)
                &&& s1@.offset() == 0
            },
            (None, None, None) => true,
            _ => false,
        },
{
    match state {
        Some(s) => {
            s.scroll_to_bottom();
            Some(s.render())
        },
        None => None,
    }
}

/// Scrolls to the oldest row of the history and draws a frame.
pub fn scroll_to_top(state: &mut Option<TerminalState>) -> (frame: Option<Frame>)
    requires
        ready(*old(state)),
    ensures
        ready(*final(state)),
        match (*old(state), *final(state), frame) {
            (Some(s0), Some(s1), Some(f)) => {
                &&& rendered(s0@.scrolled(s0@.history()), s1@, f)
                &&& s1@.offset() == s0@.history()
            },
            (None, None, None) => true,
            _ => false,
        },
{
    match state {
        Some(s) => {
            s.scroll_to_top();
            Some(s.render())
        },
        None => None,
    }
}

/// Scrolls to an offset and draws a frame. Returns the resulting offset.
pub fn scroll_to(state: &mut Option<TerminalState>, offset: usize) -> (result: (u32, Option<Frame>))
    requires
        ready(*old(state)),
    ensures
        ready(*final(state)),
        match (*old(state), *final(state), result.1) {
            (Some(s0), Some(s1), Some(f)) => {
                &&& rendered(s0@.scrolled(offset), s1@, f)
                &&& result.0 == s1@.offset()
                &&& s1@.offset() == s0@.offset_after_scroll(offset)
            },
            (None, None, None) => result.0 == 0,
            _ => false,
        },
{
    match state {
        Some(s) => {
            s.set_scroll_offset(offset);
            let frame: Frame = s.render();
            (s.scroll_offset() as u32, Some(frame))
        },
        None => (0, None),
    }
}

/// How far the terminal is scrolled back.
pub fn scroll_offset(state: &Option<TerminalState>) -> (offset: u32)
    requires
        ready(*state),
    ensures
        offset == match *state {
            Some(s) => s@.offset(),
            None => 0,
        },
{
    match state {
        Some(s) => s.scroll_offset() as u32,
        None => 0,
    }
}

/// Rows of history.
pub fn scrollback_len(state: &mut Option<TerminalState>) -> (rows: u32)
    requires
        ready(*old(state)),
    ensures
        ready(*final(state)),
        match (*old(state), *final(state)) {
            (Some(s0), Some(s1)) => rows == s0@.history() && s1@ == s0@.view_applied(),
            (None, None) => rows == 0,
            _ => false,
        },
{
    match state {
        Some(s) => s.scrollback_len() as u32,
        None => 0,
    }
}

/// A lower limit raises what is below it and nothing else.
pub proof fn lemma_limits_raise_what_is_below(n: u16, limit: u16)
    ensures
        at_least(n, limit) >= n && at_least(n, limit) >= limit,
        at_least(n, limit) == n || at_least(n, limit) == limit,
{
}

} // verus!
