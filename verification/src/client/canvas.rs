//! What a 2D canvas shows once drawing operations have been carried out on it.
//!
//! The operations are read here as whoever holds the canvas reads them: a fill
//! covers what its cell showed, text is drawn in the font that was selected
//! last, and nothing but clearing the canvas reaches beyond a cell. What the
//! frames of the terminal put on the canvas is stated in these terms.

use crate::client::color::{foreground, resolved};
use crate::client::graphics::{glyph_graphic, Graphic};
use crate::client::paint::{
    background_ops, cell_ops, cells_font, cells_ops, cursor_ops, font_after, frame_header, frame_ops,
    painted_cell, text_font, text_ops, OpView,
};
use crate::client::screen::{cell_at, CellView};
use crate::client::selection::{covers, SelectionState};
use vstd::prelude::*;

verus! {

/// What stands on the background of a cell.
pub enum Ink {
    /// Nothing.
    Bare,
    /// A graphic character.
    Shape { color: int, shape: Graphic },
    /// Text in the bold or the regular font.
    Text { color: int, text: Seq<char>, bold: bool },
}

/// What a cell of the canvas shows.
pub struct Look {
    /// The background color.
    pub fill: int,
    /// What stands on it.
    pub ink: Ink,
}

/// Whether the bold font is selected after `ops`, given whether it was before.
pub open spec fn font_in_force(ops: Seq<OpView>, bold: bool) -> bool
    decreases ops.len(),
{
    if ops.len() == 0 {
        bold
    } else {
        match ops.last() {
            OpView::Font { bold: selected } => selected,
            _ => font_in_force(ops.drop_last(), bold),
        }
    }
}

/// What one operation makes of a cell that showed `was`.
pub open spec fn touched(op: OpView, bold: bool, was: Look, at: (u16, u16)) -> Look {
    match op {
        OpView::Clear => Look { fill: 0x2b2b2b, ink: Ink::Bare },
        OpView::Fill { row, col, color } => if (row, col) == at {
            Look { fill: color, ink: Ink::Bare }
        } else {
            was
        },
        OpView::Highlight { row, col, color } => if (row, col) == at {
            Look { fill: color, ink: Ink::Bare }
        } else {
            was
        },
        OpView::Shape { row, col, color, shape } => if (row, col) == at {
            Look { ink: Ink::Shape { color, shape }, ..was }
        } else {
            was
        },
        OpView::Text { row, col, color, text } => if (row, col) == at {
            Look { ink: Ink::Text { color, text, bold }, ..was }
        } else {
            was
        },
        _ => was,
    }
}

/// What the cell at `at` shows after `ops`, when it showed `was` before them
/// and `bold` told which font was selected.
pub open spec fn shown(ops: Seq<OpView>, bold: bool, was: Look, at: (u16, u16)) -> Look
    decreases ops.len(),
{
    if ops.len() == 0 {
        was
    } else {
        touched(
            ops.last(),
            font_in_force(ops.drop_last(), bold),
            shown(ops.drop_last(), bold, was, at),
            at,
        )
    }
}

/// How a cell ought to look: its own colors, or black on its foreground color
/// where it is selected. Text that is as dark as the empty canvas is left
/// out, graphic characters are shapes, and other text has the weight that the
/// cell asks for.
pub open spec fn proper_look(cell: Option<CellView>, selected: bool) -> Look {
    match cell {
        None => Look { fill: if selected { 0xf0f0f0 } else { 0x2b2b2b }, ink: Ink::Bare },
        Some(c) => {
            let own = foreground(c, 0xf0f0f0);
            let color = if selected { 0 } else { own };
            Look {
                fill: if selected { own } else { resolved(c.bg, 0x2b2b2b) },
                ink: if c.contents.len() == 0 || color == 0x2b2b2b {
                    Ink::Bare
                } else {
                    match glyph_graphic(c.contents) {
                        Some(shape) => Ink::Shape { color, shape },
                        None => Ink::Text { color, text: c.contents, bold: c.bold },
                    }
                },
            }
        },
    }
}

/// Operations are carried out one after the other.
pub proof fn lemma_shown_in_turn(a: Seq<OpView>, b: Seq<OpView>, bold: bool, was: Look, at: (u16, u16))
    ensures
        font_in_force(a + b, bold) == font_in_force(b, font_in_force(a, bold)),
        shown(a + b, bold, was, at) == shown(b, font_in_force(a, bold), shown(a, bold, was, at), at),
    decreases b.len(),
{
    if b.len() == 0 {
        assert(a + b =~= a);
    } else {
        assert((a + b).drop_last() =~= a + b.drop_last());
        assert((a + b).last() == b.last());
        lemma_shown_in_turn(a, b.drop_last(), bold, was, at);
    }
}

/// What one and two operations show.
pub proof fn lemma_shown_short(x: OpView, y: OpView, bold: bool, was: Look, at: (u16, u16))
    ensures
        font_in_force(Seq::empty(), bold) == bold,
        shown(Seq::empty(), bold, was, at) == was,
        font_in_force(seq![x], bold) == match x {
            OpView::Font { bold: b } => b,
            _ => bold,
        },
        shown(seq![x], bold, was, at) == touched(x, bold, was, at),
        seq![x] + seq![y] == seq![x, y],
{
    assert(seq![x].drop_last() =~= Seq::<OpView>::empty());
    assert(seq![x] + seq![y] =~= seq![x, y]);
    reveal_with_fuel(font_in_force, 2);
    reveal_with_fuel(shown, 2);
}

/// The text of a cell is put on the background that is there, in the font
/// that the cell asks for, whichever was selected before.
pub proof fn lemma_text_is_shown(
    cell: Option<CellView>,
    selected: bool,
    row: u16,
    col: u16,
    bold: bool,
    was: Look,
    at: (u16, u16),
)
    ensures
        at != (row, col) ==> shown(text_ops(cell, selected, row, col, bold), bold, was, at) == was,
        was.ink == Ink::Bare ==> shown(
            text_ops(cell, selected, row, col, bold),
            bold,
            was,
            (row, col),
        ) == (Look { ink: proper_look(cell, selected).ink, ..was }),
        font_in_force(text_ops(cell, selected, row, col, bold), bold) == text_font(
            cell,
            selected,
            bold,
        ),
{
    let ops = text_ops(cell, selected, row, col, bold);
    if ops.len() == 0 {
        assert(ops =~= Seq::empty());
        lemma_shown_short(OpView::Clear, OpView::Clear, bold, was, at);
    } else if ops.len() == 1 {
        assert(ops =~= seq![ops[0]]);
        lemma_shown_short(ops[0], OpView::Clear, bold, was, at);
        lemma_shown_short(ops[0], OpView::Clear, bold, was, (row, col));
    } else {
        let (x, y) = (ops[0], ops[1]);
        assert(ops =~= seq![x] + seq![y]);
        lemma_shown_in_turn(seq![x], seq![y], bold, was, at);
        lemma_shown_in_turn(seq![x], seq![y], bold, was, (row, col));
        lemma_shown_short(x, y, bold, was, at);
        lemma_shown_short(x, y, bold, was, (row, col));
        let b = font_in_force(seq![x], bold);
        lemma_shown_short(y, y, b, was, at);
        lemma_shown_short(y, y, b, was, (row, col));
    }
}

/// The background of a cell covers whatever it showed.
proof fn lemma_background_is_shown(
    cell: Option<CellView>,
    selected: bool,
    row: u16,
    col: u16,
    bold: bool,
    was: Look,
    at: (u16, u16),
)
    ensures
        at != (row, col) ==> shown(background_ops(cell, selected, row, col), bold, was, at) == was,
        shown(background_ops(cell, selected, row, col), bold, was, (row, col)) == (Look {
            ink: Ink::Bare,
            ..proper_look(cell, selected)
        }),
        font_in_force(background_ops(cell, selected, row, col), bold) == bold,
{
    let ops = background_ops(cell, selected, row, col);
    let x = ops[0];
    if ops.len() == 1 {
        assert(ops =~= seq![x]);
        lemma_shown_short(x, x, bold, was, at);
        lemma_shown_short(x, x, bold, was, (row, col));
    } else {
        let y = ops[1];
        assert(ops =~= seq![x] + seq![y]);
        lemma_shown_in_turn(seq![x], seq![y], bold, was, at);
        lemma_shown_in_turn(seq![x], seq![y], bold, was, (row, col));
        lemma_shown_short(x, y, bold, was, at);
        lemma_shown_short(x, y, bold, was, (row, col));
        lemma_shown_short(y, y, bold, shown(seq![x], bold, was, at), at);
        lemma_shown_short(y, y, bold, shown(seq![x], bold, was, (row, col)), (row, col));
    }
}

/// Painting a cell makes it look as it ought to, whatever it showed before and
/// whichever font was selected, and leaves all other cells alone.
pub proof fn lemma_painted_cells_look_proper(
    screen: vt100::Screen,
    selection: SelectionState,
    row: u16,
    col: u16,
    bold: bool,
    was: Look,
    at: (u16, u16),
)
    ensures
        shown(cell_ops(screen, selection, row, col, bold), bold, was, at) == if at == (row, col) {
            proper_look(painted_cell(screen, row, col), covers(selection, (row, col)))
        } else {
            was
        },
        font_in_force(cell_ops(screen, selection, row, col, bold), bold) == font_after(
            screen,
            selection,
            row,
            col,
            bold,
        ),
{
    let cell = painted_cell(screen, row, col);
    let selected = covers(selection, (row, col));
    let under = background_ops(cell, selected, row, col);
    let over = text_ops(cell, selected, row, col, bold);
    lemma_shown_in_turn(under, over, bold, was, at);
    lemma_background_is_shown(cell, selected, row, col, bold, was, at);
    lemma_text_is_shown(cell, selected, row, col, bold, shown(under, bold, was, at), at);
}

/// Painting a list of cells makes each of them look as it ought to, and leaves
/// all others alone.
proof fn lemma_cells_look_proper(
    screen: vt100::Screen,
    selection: SelectionState,
    cells: Seq<(u16, u16)>,
    was: Look,
    at: (u16, u16),
)
    ensures
        shown(cells_ops(screen, selection, cells), false, was, at) == if cells.contains(at) {
            proper_look(painted_cell(screen, at.0, at.1), covers(selection, at))
        } else {
            was
        },
        font_in_force(cells_ops(screen, selection, cells), false) == cells_font(
            screen,
            selection,
            cells,
        ),
    decreases cells.len(),
{
    if cells.len() > 0 {
        let fewer = cells.drop_last();
        let last = cells.last();
        let bold = cells_font(screen, selection, fewer);
        let a = cells_ops(screen, selection, fewer);
        let b = cell_ops(screen, selection, last.0, last.1, bold);
        lemma_cells_look_proper(screen, selection, fewer, was, at);
        lemma_shown_in_turn(a, b, false, was, at);
        lemma_painted_cells_look_proper(
            screen,
            selection,
            last.0,
            last.1,
            bold,
            shown(a, false, was, at),
            at,
        );
        assert(cells =~= fewer.push(last));
        if cells.contains(at) && at != last {
            let k = choose|k: int| 0 <= k < cells.len() && cells[k] == at;
            assert(fewer[k] == at);
        }
        if fewer.contains(at) {
            let k = choose|k: int| 0 <= k < fewer.len() && fewer[k] == at;
            assert(cells[k] == at);
        }
        if at == last {
            assert(cells[cells.len() - 1] == at);
        }
    }
}

/// What the cursor shows of the cell that it is on: the cell's own colors
/// swapped. Text is drawn in the font that happens to be selected.
pub open spec fn cursor_look(cell: Option<CellView>, bold: bool) -> Look {
    match cell {
        None => Look { fill: 0xf0f0f0, ink: Ink::Bare },
        Some(c) => {
            let color = resolved(c.bg, 0x2b2b2b);
            Look {
                fill: foreground(c, 0xf0f0f0),
                ink: if c.contents.len() == 0 {
                    Ink::Bare
                } else {
                    match glyph_graphic(c.contents) {
                        Some(shape) => Ink::Shape { color, shape },
                        None => Ink::Text { color, text: c.contents, bold },
                    }
                },
            }
        },
    }
}

/// Drawing the cursor covers the cell that it is on and no other.
pub proof fn lemma_cursor_is_shown(
    screen: vt100::Screen,
    cursor: Option<(u16, u16)>,
    bold: bool,
    was: Look,
    at: (u16, u16),
)
    ensures
        shown(cursor_ops(screen, cursor), bold, was, at) == if cursor == Some(at) {
            cursor_look(cell_at(screen, at.0, at.1), bold)
        } else {
            was
        },
{
    let ops = cursor_ops(screen, cursor);
    if ops.len() == 0 {
        assert(ops =~= Seq::empty());
    } else if ops.len() == 1 {
        assert(ops =~= seq![ops[0]]);
        lemma_shown_short(ops[0], ops[0], bold, was, at);
    } else {
        let (x, y) = (ops[0], ops[1]);
        assert(ops =~= seq![x] + seq![y]);
        lemma_shown_in_turn(seq![x], seq![y], bold, was, at);
        lemma_shown_short(x, y, bold, was, at);
        lemma_shown_short(y, y, bold, shown(seq![x], bold, was, at), at);
    }
}

/// The start of a frame selects the regular font, and empties the canvas where
/// the whole grid is painted.
pub proof fn lemma_header_is_shown(full: bool, bold: bool, was: Look, at: (u16, u16))
    ensures
        font_in_force(frame_header(full), bold) == false,
        shown(frame_header(full), bold, was, at) == if full {
            Look { fill: 0x2b2b2b, ink: Ink::Bare }
        } else {
            was
        },
{
    let (c, x, y) = (OpView::Clear, OpView::Baseline, OpView::Font { bold: false });
    lemma_shown_short(c, c, bold, was, at);
    let base = if full {
        shown(seq![c], bold, was, at)
    } else {
        was
    };
    lemma_shown_in_turn(seq![x], seq![y], bold, base, at);
    lemma_shown_short(x, y, bold, base, at);
    lemma_shown_short(y, y, bold, base, at);
    assert(seq![x] + seq![y] =~= seq![x, y]);
    if full {
        lemma_shown_in_turn(seq![c], seq![x, y], bold, was, at);
        assert(frame_header(full) =~= seq![c] + seq![x, y]);
    } else {
        assert(frame_header(full) =~= seq![x, y]);
    }
}

/// What a frame makes of the canvas: the listed cells look as they ought to,
/// the cursor's shows the cursor, and all others are empty where the canvas
/// was cleared and else what they were, whichever font was selected before.
pub proof fn lemma_frames_show_their_cells(
    full: bool,
    screen: vt100::Screen,
    selection: SelectionState,
    cells: Seq<(u16, u16)>,
    cursor: Option<(u16, u16)>,
    bold: bool,
    was: Look,
    at: (u16, u16),
)
    ensures
        cursor != Some(at) ==> shown(
            frame_ops(full, screen, selection, cells, cursor),
            bold,
            was,
            at,
        ) == if cells.contains(at) {
            proper_look(painted_cell(screen, at.0, at.1), covers(selection, at))
        } else if full {
            Look { fill: 0x2b2b2b, ink: Ink::Bare }
        } else {
            was
        },
        cursor == Some(at) ==> exists|b: bool|
            shown(frame_ops(full, screen, selection, cells, cursor), bold, was, at)
                == #[trigger] cursor_look(cell_at(screen, at.0, at.1), b),
{
    let header = frame_header(full);
    let body = cells_ops(screen, selection, cells);
    let tail = cursor_ops(screen, cursor);
    let empty = Look { fill: 0x2b2b2b, ink: Ink::Bare };
    let base = if full { empty } else { was };
    lemma_header_is_shown(full, bold, was, at);
    lemma_shown_in_turn(header, body, bold, was, at);
    lemma_cells_look_proper(screen, selection, cells, base, at);
    lemma_shown_in_turn(header + body, tail, bold, was, at);
    let b = font_in_force(header + body, bold);
    lemma_cursor_is_shown(screen, cursor, b, shown(header + body, bold, was, at), at);
    if cursor == Some(at) {
        assert(shown(frame_ops(full, screen, selection, cells, cursor), bold, was, at)
            == cursor_look(cell_at(screen, at.0, at.1), b));
    }
}

/// Where a font was selected at all, the one in force is that of the last
/// selection.
proof fn lemma_font_in_force_is_the_last(ops: Seq<OpView>, bold: bool, some: int)
    requires
        0 <= some < ops.len(),
        ops[some] is Font,
    ensures
        exists|j: int|
            #![trigger ops[j]]
            {
                &&& 0 <= j < ops.len()
                &&& ops[j] == OpView::Font { bold: font_in_force(ops, bold) }
                &&& forall|k: int| j < k < ops.len() ==> !(#[trigger] ops[k] is Font)
            },
    decreases ops.len(),
{
    let n = ops.len() - 1;
    if ops[n] is Font {
        assert(ops[n] == OpView::Font { bold: font_in_force(ops, bold) });
    } else {
        let fewer = ops.drop_last();
        assert(fewer[some] == ops[some]);
        lemma_font_in_force_is_the_last(fewer, bold, some);
        let j = choose|j: int|
            #![trigger fewer[j]]
            {
                &&& 0 <= j < fewer.len()
                &&& fewer[j] == OpView::Font { bold: font_in_force(fewer, bold) }
                &&& forall|k: int| j < k < fewer.len() ==> !(#[trigger] fewer[k] is Font)
            };
        assert(ops[j] == fewer[j]);
        assert forall|k: int| j < k < ops.len() implies !(#[trigger] ops[k] is Font) by {
            if k < n {
                assert(fewer[k] == ops[k]);
            }
        }
    }
}

/// Text that is painted for a list of cells is drawn while the font that its
/// cell asks for is in force.
proof fn lemma_cells_select_their_fonts(
    screen: vt100::Screen,
    selection: SelectionState,
    cells: Seq<(u16, u16)>,
    i: int,
)
    requires
        0 <= i < cells_ops(screen, selection, cells).len(),
        cells_ops(screen, selection, cells)[i] is Text,
    ensures
        ({
            let ops = cells_ops(screen, selection, cells);
            match painted_cell(screen, ops[i]->Text_row, ops[i]->Text_col) {
                Some(c) => font_in_force(ops.take(i), false) == c.bold,
                None => false,
            }
        }),
    decreases cells.len(),
{
    let ops = cells_ops(screen, selection, cells);
    let fewer = cells.drop_last();
    let last = cells.last();
    let bold = cells_font(screen, selection, fewer);
    let a = cells_ops(screen, selection, fewer);
    let b = cell_ops(screen, selection, last.0, last.1, bold);
    let anything = Look { fill: 0, ink: Ink::Bare };
    if i < a.len() {
        assert(ops[i] == a[i]);
        assert(ops.take(i) =~= a.take(i));
        lemma_cells_select_their_fonts(screen, selection, fewer, i);
    } else {
        let k = i - a.len();
        assert(ops[i] == b[k]);
        assert(ops.take(i) =~= a + b.take(k));
        lemma_cells_look_proper(screen, selection, fewer, anything, last);
        lemma_shown_in_turn(a, b.take(k), false, anything, last);
        let cell = painted_cell(screen, last.0, last.1);
        let selected = covers(selection, last);
        let under = background_ops(cell, selected, last.0, last.1);
        let over = text_ops(cell, selected, last.0, last.1, bold);
        assert(k >= under.len());
        let m = k - under.len();
        assert(b[k] == over[m]);
        assert(b.take(k) =~= under + over.take(m));
        lemma_background_is_shown(cell, selected, last.0, last.1, bold, anything, last);
        lemma_shown_in_turn(under, over.take(m), bold, anything, last);
        if m == 0 {
            assert(over.take(m) =~= Seq::<OpView>::empty());
        } else {
            assert(over.take(m) =~= seq![over[0]]);
        }
        lemma_shown_short(over[0], over[0], bold, anything, last);
    }
}

/// Every cell's text is drawn in the font that the cell asks for: of all font
/// selections before it in the frame, the last one is for bold exactly where
/// the cell is bold. (The cursor, which comes last, keeps the font that is
/// selected by then.)
pub proof fn lemma_text_is_drawn_in_its_font(
    full: bool,
    screen: vt100::Screen,
    selection: SelectionState,
    cells: Seq<(u16, u16)>,
    cursor: Option<(u16, u16)>,
    i: int,
)
    requires
        0 <= i < frame_ops(full, screen, selection, cells, None).len(),
        frame_ops(full, screen, selection, cells, cursor)[i] is Text,
    ensures
        ({
            let ops = frame_ops(full, screen, selection, cells, cursor);
            let cell = painted_cell(screen, ops[i]->Text_row, ops[i]->Text_col);
            &&& cell is Some
            &&& exists|j: int|
                #![trigger ops[j]]
                {
                    &&& 0 <= j < i
                    &&& ops[j] == OpView::Font { bold: cell->0.bold }
                    &&& forall|k: int| j < k < i ==> !(#[trigger] ops[k] is Font)
                }
        }),
{
    let header = frame_header(full);
    let body = cells_ops(screen, selection, cells);
    let ops = frame_ops(full, screen, selection, cells, cursor);
    let anything = Look { fill: 0, ink: Ink::Bare };
    assert(frame_ops(full, screen, selection, cells, None) =~= header + body);
    let m = i - header.len();
    assert(m >= 0) by {
        if m < 0 {
            assert(ops[i] == header[i]);
        }
    }
    assert(ops[i] == body[m]);
    lemma_cells_select_their_fonts(screen, selection, cells, m);
    lemma_header_is_shown(full, false, anything, (0, 0));
    lemma_shown_in_turn(header, body.take(m), false, anything, (0, 0));
    let so_far = ops.take(i);
    assert(so_far =~= header + body.take(m));
    assert(so_far[header.len() - 1] is Font);
    lemma_font_in_force_is_the_last(so_far, false, header.len() - 1);
    let j = choose|j: int|
        #![trigger so_far[j]]
        {
            &&& 0 <= j < so_far.len()
            &&& so_far[j] == OpView::Font { bold: font_in_force(so_far, false) }
            &&& forall|k: int| j < k < so_far.len() ==> !(#[trigger] so_far[k] is Font)
        };
    assert(ops[j] == so_far[j]);
    assert forall|k: int| j < k < i implies !(#[trigger] ops[k] is Font) by {
        assert(so_far[k] == ops[k]);
    }
}

} // verus!
