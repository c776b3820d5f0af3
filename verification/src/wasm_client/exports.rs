//! The operations that the page calls on the one terminal it may have.

use crate::client::exports::Processed;
use crate::client::input::{key_bytes, map_key};
use crate::client::mend::{fitting_cols, fitting_rows, refit_effect};
use crate::client::paint::{ops_view, DrawOp};
use crate::client::query::{collect_query_replies, replies};
use crate::client::screen::{emulator_fed, screen_cursor, vt_cursor};
use crate::client::selection::{can_extract, extractable};
use crate::text::push_text;
use crate::wasm_client::terminal::{
    extract_selection, frame, text_between, upper, Model, TerminalState,
};
use vstd::prelude::*;

verus! {

/// Whether the terminal, if there is one, is well-formed.
pub open spec fn ready(state: Option<TerminalState>) -> bool {
    state matches Some(s) ==> s@.wf()
}

/// Creates the terminal, once. The arguments are those of
/// [`TerminalState::new`].
pub fn init(
    state: &mut Option<TerminalState>,
    canvas_id: &str,
    webgl2_available: bool,
    canvas_found: bool,
    context2d: bool,
    rows: Option<u16>,
    cols: Option<u16>,
) -> (result: Result<(), String>)
    requires
        ready(*old(state)),
    ensures
        ready(*final(state)),
        match result {
            Ok(_) => {
                &&& *old(state) is None && canvas_found && context2d
                &&& *final(state) matches Some(s) && s@ == Model::fresh(
                    canvas_id@,
                    webgl2_available,
                    rows,
                    cols,
                )
            },
            Err(e) => {
                &&& *final(state) == *old(state)
                &&& if *old(state) is Some {
                    e@ == "terminal already initialized"@
                } else if !canvas_found {
                    e@ == "terminal init failed: "@ + ("canvas '#"@ + canvas_id@ + "' not found"@)
                } else {
                    !context2d && e@ == "terminal init failed: "@ + "2D context unavailable"@
                }
            },
        },
{
    if state.is_some() {
        return Err("terminal already initialized".to_owned());
    }
    match TerminalState::new(canvas_id, webgl2_available, canvas_found, context2d, rows, cols) {
        Ok(s) => {
            *state = Some(s);
            Ok(())
        },
        Err(e) => {
            let mut message: String = "terminal init failed: ".to_owned();
            push_text(&mut message, e.as_str());
            Err(message)
        },
    }
}

/// Feeds a chunk of output to the terminal and draws a frame.
pub fn process_bytes(state: &mut Option<TerminalState>, bytes: &[u8]) -> (result: Result<
    (Processed, Vec<DrawOp>),
    String,
>)
    requires
        ready(*old(state)),
    ensures
        ready(*final(state)),
        match (*old(state), *final(state), result) {
            (Some(s0), Some(s1), Ok((p, ops))) => {
                &&& s1@ == Model { parser: emulator_fed(s0@.parser, bytes@), ..s0@ }
                &&& ops_view(ops@) == frame(s1@)
                &&& p == (Processed {
                    byte_count: bytes@.len() as usize,
                    rows: s0@.rows,
                    cols: s0@.cols,
                })
            },
            (None, None, Err(e)) => e@ == "init() not called"@,
            _ => false,
        },
{
    match state {
        Some(s) => {
            s.process_bytes(bytes);
            let ops: Vec<DrawOp> = s.render();
            Ok((Processed { byte_count: bytes.len(), rows: s.rows, cols: s.cols }, ops))
        },
        None => Err("init() not called".to_owned()),
    }
}

/// The replies to the queries in a chunk of output.
pub fn query_replies(state: &Option<TerminalState>, bytes: &[u8]) -> (result: Result<
    Vec<u8>,
    String,
>)
    ensures
        match (*state, result) {
            (Some(s), Ok(r)) => {
                let at = screen_cursor(s@.screen());
                r@ == replies(bytes@, at.0 as nat, at.1 as nat)
            },
            (None, Err(e)) => e@ == "init() not called"@,
            _ => false,
        },
{
    match state {
        Some(s) => {
            let (row, col): (u16, u16) = vt_cursor(s.screen());
            Ok(collect_query_replies(bytes, row as usize, col as usize))
        },
        None => Err("init() not called".to_owned()),
    }
}

/// Draws a frame.
pub fn repaint(state: &Option<TerminalState>) -> (result: Result<Vec<DrawOp>, String>)
    ensures
        match (*state, result) {
            (Some(s), Ok(ops)) => ops_view(ops@) == frame(s@),
            (None, Err(e)) => e@ == "init() not called"@,
            _ => false,
        },
{
    match state {
        Some(s) => Ok(s.render()),
        None => Err("init() not called".to_owned()),
    }
}

/// Takes over the number of columns and rows that fit on the resized canvas.
/// Returns the new rows and columns.
pub fn handle_resize(state: &mut Option<TerminalState>, cols: u16, rows: u16) -> (result: Result<
    (u16, u16),
    String,
>)
    requires
        ready(*old(state)),
    ensures
        ready(*final(state)),
        match (*old(state), *final(state), result) {
            (Some(s0), Some(s1), Ok(n)) => {
                &&& n == (upper(rows, 1), upper(cols, 2))
                &&& s1@ == s0@.resized(n.0, n.1)
                &&& refit_effect(
                    s0@.screen(),
                    s1@.screen(),
                    fitting_rows(n.0),
                    fitting_cols(n.1),
                )
            },
            (None, None, Err(e)) => e@ == "init() not called"@,
            _ => false,
        },
{
    match state {
        Some(s) => Ok(s.resize(cols, rows)),
        None => Err("init() not called".to_owned()),
    }
}

/// Whether WebGL2 can be used.
pub fn is_webgl2_available(state: &Option<TerminalState>) -> (available: bool)
    ensures
        available == match *state {
            Some(s) => s@.webgl2_available,
            None => false,
        },
{
    match state {
        Some(s) => s.is_webgl2_available(),
        None => false,
    }
}

/// Whether the terminal runs without WebGL2.
pub fn is_fallback_mode(state: &Option<TerminalState>) -> (fallback: bool)
    ensures
        fallback == match *state {
            Some(s) => s@.fallback_mode,
            None => false,
        },
{
    match state {
        Some(s) => s.is_fallback_mode(),
        None => false,
    }
}

/// Whether the page has to show the fallback.
pub fn check_fallback(state: &Option<TerminalState>) -> (fallback: bool)
    ensures
        fallback == (*state matches Some(s) && s@.fallback_mode),
{
    is_fallback_mode(state)
}

/// The name of the selection mode.
pub fn selection_mode(state: &Option<TerminalState>) -> (name: String)
    ensures
        name@ == match *state {
            Some(s) => s@.selection_mode.label(),
            None => "None"@,
        },
{
    match state {
        Some(s) => s.selection_mode.to_string(),
        None => "None".to_owned(),
    }
}

/// Whether the text of the selection, if there is one, can be read.
pub open spec fn selection_extractable(model: Model) -> bool {
    match (model.selection_start, model.selection_end) {
        (Some(a), Some(b)) => extractable(model.screen(), a, b),
        _ => true,
    }
}

/// The selected text; empty without a selection.
pub fn selected_text(state: &Option<TerminalState>) -> (text: String)
    requires
        *state matches Some(s) ==> selection_extractable(s@),
    ensures
        text@ == match *state {
            Some(s) => match (s@.selection_start, s@.selection_end) {
                (Some(a), Some(b)) => text_between(s@.screen(), a, b),
                _ => Seq::empty(),
            },
            None => Seq::empty(),
        },
{
    match state {
        Some(s) => match (s.selection_start, s.selection_end) {
            (Some(start), Some(end)) => extract_selection(s.screen(), start, end),
            _ => String::new(),
        },
        None => String::new(),
    }
}

/// The selected text, empty without a selection, or `None` when the emulator
/// cannot read it.
pub fn try_selected_text(state: &Option<TerminalState>) -> (text: Option<String>)
    ensures
        match *state {
            Some(s) => match (s@.selection_start, s@.selection_end) {
                (Some(a), Some(b)) => match text {
                    Some(t) => extractable(s@.screen(), a, b) && t@ == text_between(
                        s@.screen(),
                        a,
                        b,
                    ),
                    None => !extractable(s@.screen(), a, b),
                },
                _ => text matches Some(t) && t@ == Seq::<char>::empty(),
            },
            None => text matches Some(t) && t@ == Seq::<char>::empty(),
        },
{
    match state {
        Some(s) => match (s.selection_start, s.selection_end) {
            (Some(start), Some(end)) => if can_extract(s.screen(), start, end) {
                Some(selected_text(state))
            } else {
                None
            },
            _ => Some(selected_text(state)),
        },
        None => Some(selected_text(state)),
    }
}

/// Selects the text between two cells.
pub fn set_selection(
    state: &mut Option<TerminalState>,
    start_row: u16,
    start_col: u16,
    end_row: u16,
    end_col: u16,
)
    ensures
        ready(*old(state)) ==> ready(*final(state)),
        match (*old(state), *final(state)) {
            (Some(s0), Some(s1)) => s1@ == s0@.selecting(
                (start_row, start_col),
                (end_row, end_col),
            ),
            (None, None) => true,
            _ => false,
        },
{
    if let Some(s) = state {
        s.handle_selection_start(start_row, start_col);
        s.handle_selection_update(end_row, end_col);
    }
}

/// Drops the selection and draws a frame.
pub fn clear_selection(state: &mut Option<TerminalState>) -> (frame_ops: Option<Vec<DrawOp>>)
    ensures
        ready(*old(state)) ==> ready(*final(state)),
        match (*old(state), *final(state), frame_ops) {
            (Some(s0), Some(s1), Some(ops)) => {
                &&& s1@ == s0@.deselected()
                &&& ops_view(ops@) == frame(s1@)
            },
            (None, None, None) => true,
            _ => false,
        },
{
    match state {
        Some(s) => {
            s.clear_selection();
            Some(s.render())
        },
        None => None,
    }
}

/// Maps a browser key event to bytes for the PTY.
pub fn key_to_bytes(key: &str, ctrl: bool, alt: bool, shift: bool, meta: bool) -> (bytes: Vec<u8>)
    ensures
        bytes@ == key_bytes(key@, ctrl, alt, shift),
{
    map_key(key, ctrl, alt, shift, meta)
}

} // verus!
