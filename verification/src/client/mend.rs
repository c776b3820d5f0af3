//! Resizing the emulator without cutting wide characters in two.
//!
//! The emulator fails when it has to write over half of a wide character, so
//! no resize may leave one behind. Before the screens get narrower, a blank
//! cell is inserted in front of every wide character that the new edge would
//! cut, which pushes it out of the screen. That is done on a copy of the
//! screen, with an emulator of its own: the one in use may be in the middle of
//! a sequence.
//!
//! An emulator also fails on screens that are very small or very wide. Its
//! screens then are larger or narrower than asked for, and only a part of
//! them is shown.

use crate::client::screen::{
    blank_cell, blank_rows, cell_whole, emulator_fed, emulator_idle, emulator_made,
    emulator_resized, emulator_screen, emulator_scrolled, emulator_with, feedable, insert_blank,
    move_to, pulled_back, read_cell, resized_row, resized_rows, row_whole, rows_whole,
    screen_alternate, screen_at, screen_cursor, screen_kept, screen_limit, screen_offset,
    screen_rows, screen_size, shaped, switch_to, vt_alternate, vt_clone, vt_cursor, vt_new,
    vt_process, vt_replace_screen, vt_screen, vt_scrollback, vt_set_scrollback, vt_set_size,
    vt_size, with_gap, CellView, Emulator, MAX_COLS, MIN_COLS, MIN_ROWS,
};
use crate::text::push_decimal;
use vstd::prelude::*;

verus! {

/// Rows that the emulator gets when `rows` are asked for.
pub open spec fn fitting_rows(rows: u16) -> u16 {
    if rows < MIN_ROWS {
        MIN_ROWS
    } else {
        rows
    }
}

/// Columns that the emulator gets when `cols` are asked for.
pub open spec fn fitting_cols(cols: u16) -> u16 {
    if cols < MIN_COLS {
        MIN_COLS
    } else if cols > MAX_COLS {
        MAX_COLS
    } else {
        cols
    }
}

/// A row with the first half of a wide character in its last column blanked.
pub open spec fn mended_row(row: Seq<CellView>) -> Seq<CellView> {
    if row.len() > 0 && row.last().wide {
        row.update(row.len() - 1, blank_cell())
    } else {
        row
    }
}

/// Rows with the first halves of wide characters in the last column blanked.
pub open spec fn mended_rows(rows: Seq<Seq<CellView>>) -> Seq<Seq<CellView>> {
    Seq::new(rows.len(), |r: int| mended_row(rows[r]))
}

/// Those of the first `n` rows that have the first half of a wide character
/// in column `col`.
pub open spec fn cut_list(rows: Seq<Seq<CellView>>, col: u16, n: int) -> Seq<u16>
    decreases n,
{
    if n <= 0 {
        Seq::empty()
    } else if rows[n - 1][col as int].wide {
        cut_list(rows, col, n - 1).push((n - 1) as u16)
    } else {
        cut_list(rows, col, n - 1)
    }
}

/// The rows of the active screen that have the first half of a wide character
/// in column `col`.
pub open spec fn active_cuts(screen: vt100::Screen, col: u16) -> Seq<u16> {
    cut_list(
        screen_rows(screen, screen_alternate(screen)),
        col,
        screen_size(screen).0 as int,
    )
}

/// An emulator after blank cells have been inserted in column `col` of the
/// listed rows.
pub open spec fn opened(emulator: Emulator, list: Seq<u16>, col: u16) -> Emulator
    decreases list.len(),
{
    if list.len() == 0 {
        emulator
    } else {
        emulator_fed(
            emulator_fed(opened(emulator, list.drop_last(), col), move_to(list.last(), col)),
            insert_blank(),
        )
    }
}

/// The last column of the screen that is not right of `col`.
pub open spec fn on_screen(screen: vt100::Screen, col: u16) -> u16 {
    if col < screen_size(screen).1 {
        col
    } else {
        (screen_size(screen).1 - 1) as u16
    }
}

/// An emulator after blank cells have been inserted on the active screen
/// wherever a wide character starts in column `col`, with the cursor back
/// where it was.
pub open spec fn active_opened(emulator: Emulator, col: u16) -> Emulator {
    let screen = emulator_screen(emulator);
    let at = screen_cursor(screen);
    emulator_fed(
        opened(emulator_scrolled(emulator, 0), active_cuts(screen, col), col),
        move_to(at.0, on_screen(screen, at.1)),
    )
}

/// An emulator after blank cells have been inserted on both screens wherever
/// a wide character starts in column `col`.
pub open spec fn both_opened(emulator: Emulator, col: u16) -> Emulator {
    let active = screen_alternate(emulator_screen(emulator));
    let first = active_opened(emulator, col);
    let second = active_opened(emulator_fed(first, switch_to(!active)), col);
    emulator_fed(second, switch_to(active))
}

/// Whether a wide character on the rows starts in column `col`.
pub open spec fn starts_in(rows: Seq<Seq<CellView>>, col: u16) -> bool {
    exists|r: int| 0 <= r < rows.len() && col < (#[trigger] rows[r]).len() && rows[r][col as int].wide
}

/// Whether screens of `cols` columns would cut a wide character on one of the
/// screens.
pub open spec fn would_cut(screen: vt100::Screen, cols: u16) -> bool {
    0 < cols < screen_size(screen).1 && (starts_in(screen_rows(screen, false), (cols - 1) as u16)
        || starts_in(screen_rows(screen, true), (cols - 1) as u16))
}

/// An emulator before its screens get `cols` columns: as it is, unless that
/// would cut a wide character.
pub open spec fn mended(emulator: Emulator, cols: u16) -> Emulator {
    let screen = emulator_screen(emulator);
    if would_cut(screen, cols) {
        let copy = emulator_with(emulator_made(MIN_ROWS, MIN_COLS, 0), screen);
        emulator_scrolled(
            emulator_with(emulator, emulator_screen(both_opened(copy, (cols - 1) as u16))),
            screen_offset(screen),
        )
    } else {
        emulator
    }
}

/// An emulator after its screens have been made to fit `rows` and `cols`.
pub open spec fn refitted(emulator: Emulator, rows: u16, cols: u16) -> Emulator {
    emulator_resized(mended(emulator, fitting_cols(cols)), fitting_rows(rows), fitting_cols(cols))
}

/// Rows with blank cells inserted wherever a wide character starts in column
/// `col`.
pub open spec fn opened_rows(rows: Seq<Seq<CellView>>, col: u16) -> Seq<Seq<CellView>> {
    Seq::new(
        rows.len(),
        |r: int|
            if rows[r][col as int].wide {
                with_gap(rows[r], col as int)
            } else {
                rows[r]
            },
    )
}

/// The bytes that move the cursor to a cell.
fn move_bytes(row: u16, col: u16) -> (bytes: Vec<u8>)
    requires
        row < u16::MAX,
        col < u16::MAX,
    ensures
        bytes@ == move_to(row, col),
{
    let mut bytes: Vec<u8> = vec![0x1b, 0x5b];
    push_decimal(&mut bytes, row as usize + 1);
    bytes.push(0x64);
    bytes.push(0x1b);
    bytes.push(0x5b);
    push_decimal(&mut bytes, col as usize + 1);
    bytes.push(0x47);
    assert(bytes@ =~= move_to(row, col));
    bytes
}

/// The bytes that switch to the alternate or the normal screen.
fn switch_bytes(alternate: bool) -> (bytes: Vec<u8>)
    ensures
        bytes@ == switch_to(alternate),
{
    let bytes: Vec<u8> = vec![0x1b, 0x5b, 0x3f, 0x34, 0x37, if alternate {
        0x68
    } else {
        0x6c
    }];
    assert(bytes@ =~= switch_to(alternate));
    bytes
}

proof fn lemma_cut_list(rows: Seq<Seq<CellView>>, col: u16, n: int)
    requires
        0 <= n <= rows.len() <= u16::MAX,
    ensures
        forall|r: u16| #[trigger]
            cut_list(rows, col, n).contains(r) <==> r < n && rows[r as int][col as int].wide,
        cut_list(rows, col, n).no_duplicates(),
    decreases n,
{
    if n > 0 {
        lemma_cut_list(rows, col, n - 1);
        let before = cut_list(rows, col, n - 1);
        let k = (n - 1) as u16;
        if rows[n - 1][col as int].wide {
            let after = before.push(k);
            assert(!before.contains(k));
            assert forall|r: u16| #[trigger] after.contains(r) <==> r < n
                && rows[r as int][col as int].wide by {
                if after.contains(r) && r != k {
                    let i = choose|i: int| 0 <= i < after.len() && after[i] == r;
                    assert(before[i] == r);
                }
                if before.contains(r) {
                    let i = choose|i: int| 0 <= i < before.len() && before[i] == r;
                    assert(after[i] == r);
                }
                if r == k {
                    assert(after[before.len() as int] == k);
                }
            }
        }
    }
}

/// The rows of the active screen that have the first half of a wide character
/// in column `col`.
fn find_cuts(screen: &vt100::Screen, col: u16) -> (list: Vec<u16>)
    requires
        screen_offset(*screen) == 0,
        col < screen_size(*screen).1,
    ensures
        list@ == active_cuts(*screen, col),
        shaped(screen_rows(*screen, screen_alternate(*screen)), screen_size(*screen)),
{
    let ghost all = screen_rows(*screen, screen_alternate(*screen));
    let (rows, cols): (u16, u16) = vt_size(screen);
    let mut list: Vec<u16> = Vec::new();
    let mut row: u16 = 0;
    while row < rows
        invariant
            row <= rows,
            col < cols,
            screen_offset(*screen) == 0,
            all == screen_rows(*screen, screen_alternate(*screen)),
            shaped(all, (rows, cols)),
            list@ == cut_list(all, col, row as int),
        decreases rows - row,
    {
        assert(all[row as int].len() == cols);
        let wide: bool = match read_cell(screen, row, col) {
            Some(c) => c.wide,
            None => false,
        };
        if wide {
            list.push(row);
        }
        row += 1;
    }
    list
}

/// Inserts blank cells on the active screen wherever a wide character starts
/// in column `col`. Returns whether there was one.
fn open_active(copy: &mut Emulator, col: u16) -> (any: bool)
    requires
        emulator_idle(*old(copy)),
        feedable(*old(copy)),
        col < screen_size(emulator_screen(*old(copy))).1,
    ensures
        *final(copy) == active_opened(*old(copy), col),
        emulator_idle(*final(copy)),
        feedable(*final(copy)),
        ({
            let before = emulator_screen(*old(copy));
            let after = emulator_screen(*final(copy));
            let active = screen_alternate(before);
            let at = screen_at(before, active);
            &&& any == starts_in(screen_rows(before, active), col)
            &&& shaped(screen_rows(before, active), screen_size(before))
            &&& screen_size(after) == screen_size(before)
            &&& screen_limit(after) == screen_limit(before)
            &&& screen_kept(after) == screen_kept(before)
            &&& screen_alternate(after) == active
            &&& screen_rows(after, active) == opened_rows(screen_rows(before, active), col)
            &&& screen_rows(after, !active) == screen_rows(before, !active)
            &&& screen_at(after, active) == (at.0, on_screen(before, at.1))
            &&& screen_at(after, !active) == screen_at(before, !active)
        }),
{
    let ghost before = emulator_screen(*copy);
    let ghost active = screen_alternate(before);
    let ghost rows = screen_rows(before, active);
    vt_set_scrollback(copy, 0);
    let ghost start = *copy;
    let (height, width): (u16, u16) = vt_size(vt_screen(copy));
    let at: (u16, u16) = vt_cursor(vt_screen(copy));
    let list: Vec<u16> = find_cuts(vt_screen(copy), col);
    proof {
        lemma_cut_list(rows, col, height as int);
        assert forall|r: int| 0 <= r < rows.len() implies row_whole(#[trigger] rows[r]) by {}
    }
    let mut i: usize = 0;
    assert(list@.take(0) =~= Seq::<u16>::empty());
    while i < list.len()
        invariant
            i <= list@.len(),
            *copy == opened(start, list@.take(i as int), col),
            emulator_idle(*copy),
            feedable(*copy),
            screen_size(emulator_screen(*copy)) == (height, width),
            screen_size(before) == (height, width),
            MIN_ROWS <= height,
            width <= MAX_COLS,
            screen_limit(emulator_screen(*copy)) == screen_limit(before),
            screen_kept(emulator_screen(*copy)) == screen_kept(before),
            screen_alternate(emulator_screen(*copy)) == active,
            screen_rows(emulator_screen(*copy), !active) == screen_rows(before, !active),
            screen_at(emulator_screen(*copy), !active) == screen_at(before, !active),
            rows == screen_rows(before, active),
            shaped(rows, (height, width)),
            rows_whole(rows),
            col < width,
            list@ == cut_list(rows, col, height as int),
            list@.no_duplicates(),
            forall|r: u16| #[trigger]
                list@.contains(r) <==> r < height && rows[r as int][col as int].wide,
            screen_rows(emulator_screen(*copy), active).len() == rows.len(),
            forall|r: u16|
                r < height ==> #[trigger] screen_rows(emulator_screen(*copy), active)[r as int]
                    == if list@.take(i as int).contains(r) {
                    with_gap(rows[r as int], col as int)
                } else {
                    rows[r as int]
                },
        decreases list.len() - i,
    {
        let ghost prior = screen_rows(emulator_screen(*copy), active);
        let row: u16 = list[i];
        let ghost done = list@.take(i as int);
        proof {
            assert(list@.contains(row));
            assert(!done.contains(row)) by {
                if done.contains(row) {
                    let k = choose|k: int| 0 <= k < done.len() && done[k] == row;
                    assert(list@[k] == list@[i as int]);
                }
            }
            assert(prior[row as int] == rows[row as int]);
            assert(row_whole(rows[row as int]));
            assert(cell_whole(rows[row as int], col as int));
        }
        vt_process(copy, move_bytes(row, col).as_slice());
        let blank: [u8; 3] = [0x1b, 0x5b, 0x40];
        assert(blank@ =~= insert_blank());
        vt_process(copy, blank.as_slice());
        proof {
            let next = list@.take(i + 1);
            assert(next.drop_last() =~= done);
            assert(next.last() == row);
            let now = screen_rows(emulator_screen(*copy), active);
            assert forall|r: u16| r < height implies #[trigger] now[r as int]
                == if next.contains(r) {
                with_gap(rows[r as int], col as int)
            } else {
                rows[r as int]
            } by {
                assert(next.contains(r) <==> done.contains(r) || r == row) by {
                    if next.contains(r) && r != row {
                        let k = choose|k: int| 0 <= k < next.len() && next[k] == r;
                        assert(done[k] == r);
                    }
                    if done.contains(r) {
                        let k = choose|k: int| 0 <= k < done.len() && done[k] == r;
                        assert(next[k] == r);
                    }
                    assert(next[i as int] == row);
                }
                assert(prior[r as int] == if done.contains(r) {
                    with_gap(rows[r as int], col as int)
                } else {
                    rows[r as int]
                });
            }
        }
        i += 1;
    }
    proof {
        assert(list@.take(i as int) =~= list@);
        let now = screen_rows(emulator_screen(*copy), active);
        assert(now =~= opened_rows(rows, col)) by {
            assert forall|r: int| 0 <= r < now.len() implies now[r] == opened_rows(rows, col)[r] by {
                assert(now[(r as u16) as int] == now[r]);
            }
        }
        if list@.len() > 0 {
            assert(list@.contains(list@[0]));
            assert(rows[list@[0] as int].len() == width);
        }
        if starts_in(rows, col) {
            let r = choose|r: int|
                0 <= r < rows.len() && col < (#[trigger] rows[r]).len() && rows[r][col as int].wide;
            assert(list@.contains(r as u16));
        }
    }
    let back: u16 = if at.1 < width {
        at.1
    } else {
        width - 1
    };
    vt_process(copy, move_bytes(at.0, back).as_slice());
    list.len() > 0
}

/// Rows of a screen, or blank ones where it has none yet.
pub open spec fn filled(rows: Seq<Seq<CellView>>, size: (u16, u16)) -> Seq<Seq<CellView>> {
    if rows.len() == 0 {
        blank_rows(size.0, size.1)
    } else {
        rows
    }
}

proof fn lemma_blank_rows_start_nothing(size: (u16, u16), col: u16)
    ensures
        !starts_in(blank_rows(size.0, size.1), col),
        col < size.1 ==> opened_rows(blank_rows(size.0, size.1), col) == blank_rows(
            size.0,
            size.1,
        ),
{
    let blank = blank_rows(size.0, size.1);
    assert forall|r: int| 0 <= r < blank.len() implies #[trigger] blank[r] == resized_row(
        Seq::empty(),
        r,
        size.1,
    ) by {}
    if col < size.1 {
        assert(opened_rows(blank, col) =~= blank);
    }
}

/// Whether two screens agree in everything but their cells and cursors.
pub open spec fn same_frame(a: vt100::Screen, b: vt100::Screen) -> bool {
    &&& screen_size(a) == screen_size(b)
    &&& screen_limit(a) == screen_limit(b)
    &&& screen_kept(a) == screen_kept(b)
    &&& screen_alternate(a) == screen_alternate(b)
    &&& screen_offset(a) == screen_offset(b)
}

/// Prepares the screens for getting `cols` columns: pushes the wide
/// characters aside that would be cut.
fn mend(emulator: &mut Emulator, cols: u16)
    requires
        feedable(*old(emulator)),
        0 < cols,
    ensures
        *final(emulator) == mended(*old(emulator), cols),
        emulator_idle(*final(emulator)) == emulator_idle(*old(emulator)),
        same_frame(emulator_screen(*final(emulator)), emulator_screen(*old(emulator))),
        ({
            let before = emulator_screen(*old(emulator));
            let after = emulator_screen(*final(emulator));
            let size = screen_size(before);
            &&& shaped(screen_rows(before, false), size)
            &&& shaped(screen_rows(before, true), size) || screen_rows(before, true).len() == 0
            &&& forall|a: bool|
                if would_cut(before, cols) {
                    &&& #[trigger] screen_rows(after, a) == opened_rows(
                        filled(screen_rows(before, a), size),
                        (cols - 1) as u16,
                    )
                    &&& screen_at(after, a) == (
                        screen_at(before, a).0,
                        on_screen(before, screen_at(before, a).1),
                    )
                } else {
                    &&& screen_rows(after, a) == screen_rows(before, a)
                    &&& screen_at(after, a) == screen_at(before, a)
                }
        }),
{
    let ghost before = emulator_screen(*emulator);
    let size: (u16, u16) = vt_size(vt_screen(emulator));
    if cols >= size.1 {
        return ;
    }
    let col: u16 = cols - 1;
    let offset: usize = vt_scrollback(vt_screen(emulator));
    let active: bool = vt_alternate(vt_screen(emulator));
    let mut copy: Emulator = vt_new(MIN_ROWS, MIN_COLS, 0);
    vt_replace_screen(&mut copy, vt_clone(vt_screen(emulator)));
    let ghost start = copy;
    let first: bool = open_active(&mut copy, col);
    vt_process(&mut copy, switch_bytes(!active).as_slice());
    let second: bool = open_active(&mut copy, col);
    vt_process(&mut copy, switch_bytes(active).as_slice());
    assert(copy == both_opened(start, col));
    proof {
        lemma_blank_rows_start_nothing(size, col);
    }
    assert((first || second) == would_cut(before, cols));
    if first || second {
        vt_replace_screen(emulator, vt_clone(vt_screen(&copy)));
        vt_set_scrollback(emulator, offset);
        assert forall|a: bool| #[trigger]
            screen_rows(emulator_screen(*emulator), a) == opened_rows(
                filled(screen_rows(before, a), size),
                col,
            ) by {
            assert(a == active || a == !active);
        }
    }
}

/// Rows whose wide characters are whole still are after they have been
/// resized and mended.
pub proof fn lemma_mended_rows_are_whole(old: Seq<Seq<CellView>>, rows: u16, cols: u16)
    requires
        rows_whole(old),
    ensures
        rows_whole(mended_rows(resized_rows(old, rows, cols))),
{
    let plain = resized_rows(old, rows, cols);
    let new = mended_rows(plain);
    assert forall|r: int| 0 <= r < new.len() implies row_whole(#[trigger] new[r]) by {
        assert(plain[r] == resized_row(old, r, cols));
        assert(new[r] == mended_row(plain[r]));
        assert forall|c: int| 0 <= c < new[r].len() implies #[trigger] cell_whole(new[r], c) by {
            if r < old.len() {
                assert(row_whole(old[r]));
                if c < old[r].len() {
                    assert(cell_whole(old[r], c));
                }
                if 0 <= c - 1 < old[r].len() {
                    assert(cell_whole(old[r], c - 1));
                }
                if c + 1 < old[r].len() {
                    assert(cell_whole(old[r], c + 1));
                }
            }
        }
    }
}

/// Inserting blank cells before the screens get narrower blanks the first
/// halves that would stand in the last column, and nothing else.
proof fn lemma_opened_rows_resize_to_mended(
    old: Seq<Seq<CellView>>,
    size: (u16, u16),
    rows: u16,
    cols: u16,
)
    requires
        shaped(old, size) || old.len() == 0,
        0 < cols < size.1,
    ensures
        resized_rows(opened_rows(filled(old, size), (cols - 1) as u16), rows, cols)
            == mended_rows(resized_rows(old, rows, cols)),
{
    let col = (cols - 1) as u16;
    let full = filled(old, size);
    let opened = opened_rows(full, col);
    let left = resized_rows(opened, rows, cols);
    let plain = resized_rows(old, rows, cols);
    let right = mended_rows(plain);
    lemma_blank_rows_start_nothing(size, col);
    assert forall|r: int| 0 <= r < rows implies left[r] == right[r] by {
        assert(left[r] == resized_row(opened, r, cols));
        assert(plain[r] == resized_row(old, r, cols));
        assert(right[r] == mended_row(plain[r]));
        if old.len() == 0 {
            assert(opened == full);
            if r < full.len() {
                assert(full[r] == resized_row(Seq::empty(), r, size.1));
            }
        } else if r < old.len() {
            assert(old[r].len() == size.1);
            assert(opened[r].len() == size.1);
        }
        assert(left[r] =~= right[r]);
    }
    assert(left =~= right);
}

/// Rows that do not get narrower, or where no wide character starts in the
/// new last column, need no mending.
proof fn lemma_uncut_rows_need_no_mending(
    old: Seq<Seq<CellView>>,
    size: (u16, u16),
    rows: u16,
    cols: u16,
)
    requires
        rows_whole(old),
        shaped(old, size) || old.len() == 0,
        0 < cols,
        cols < size.1 ==> !starts_in(old, (cols - 1) as u16),
    ensures
        mended_rows(resized_rows(old, rows, cols)) == resized_rows(old, rows, cols),
{
    let plain = resized_rows(old, rows, cols);
    assert forall|r: int| 0 <= r < plain.len() implies mended_row(#[trigger] plain[r])
        == plain[r] by {
        assert(plain[r] == resized_row(old, r, cols));
        if r < old.len() {
            assert(old[r].len() == size.1);
            assert(row_whole(old[r]));
            if cols <= size.1 {
                assert(cell_whole(old[r], cols - 1));
            }
        }
    }
    assert(mended_rows(plain) =~= plain);
}

/// Resizes the screens of an emulator, and keeps them fit for output.
pub(crate) fn refit(emulator: &mut Emulator, rows: u16, cols: u16)
    requires
        feedable(*old(emulator)),
    ensures
        *final(emulator) == refitted(*old(emulator), rows, cols),
        feedable(*final(emulator)),
        refit_effect(
            emulator_screen(*old(emulator)),
            emulator_screen(*final(emulator)),
            fitting_rows(rows),
            fitting_cols(cols),
        ),
        !would_cut(emulator_screen(*old(emulator)), fitting_cols(cols)) ==> *final(emulator)
            == emulator_resized(*old(emulator), fitting_rows(rows), fitting_cols(cols)),
{
    let ghost before = emulator_screen(*emulator);
    let rows: u16 = if rows < MIN_ROWS {
        MIN_ROWS
    } else {
        rows
    };
    let cols: u16 = if cols < MIN_COLS {
        MIN_COLS
    } else if cols > MAX_COLS {
        MAX_COLS
    } else {
        cols
    };
    mend(emulator, cols);
    let ghost middle = emulator_screen(*emulator);
    vt_set_size(emulator, rows, cols);
    proof {
        let size = screen_size(before);
        assert forall|a: bool| #[trigger]
            screen_rows(emulator_screen(*emulator), a) == mended_rows(
                resized_rows(screen_rows(before, a), rows, cols),
            ) by {
            let old = screen_rows(before, a);
            assert(a == false || a == true);
            assert(rows_whole(old));
            assert(shaped(old, size) || old.len() == 0);
            assert(screen_rows(emulator_screen(*emulator), a) == resized_rows(
                screen_rows(middle, a),
                rows,
                cols,
            ));
            if would_cut(before, cols) {
                lemma_opened_rows_resize_to_mended(old, size, rows, cols);
            } else {
                lemma_uncut_rows_need_no_mending(old, size, rows, cols);
            }
        }
        lemma_mended_rows_are_whole(screen_rows(before, false), rows, cols);
        lemma_mended_rows_are_whole(screen_rows(before, true), rows, cols);
        assert forall|a: bool| #[trigger]
            screen_at(emulator_screen(*emulator), a) == pulled_back(
                screen_at(before, a),
                rows,
                cols,
            ) by {
            assert(a == false || a == true);
            assert(screen_rows(middle, a).len() >= 0);
        }
    }
}

/// What resizing makes of a screen: both screens are cut or filled up and
/// mended, and their cursors pulled back onto them. The history, the view's
/// position in it and the choice of screen stay.
pub open spec fn refit_effect(old: vt100::Screen, new: vt100::Screen, rows: u16, cols: u16) -> bool {
    &&& screen_size(new) == (rows, cols)
    &&& screen_limit(new) == screen_limit(old)
    &&& screen_kept(new) == screen_kept(old)
    &&& screen_alternate(new) == screen_alternate(old)
    &&& screen_offset(new) == screen_offset(old)
    &&& forall|a: bool| #[trigger]
        screen_rows(new, a) == mended_rows(resized_rows(screen_rows(old, a), rows, cols))
    &&& forall|a: bool| #[trigger]
        screen_at(new, a) == pulled_back(screen_at(old, a), rows, cols)
}

/// Blank rows hold no half of a wide character.
pub proof fn lemma_blank_rows_are_whole()
    ensures
        forall|rows: u16, cols: u16| rows_whole(#[trigger] blank_rows(rows, cols)),
{
    assert forall|rows: u16, cols: u16| rows_whole(#[trigger] blank_rows(rows, cols)) by {
        let blank = blank_rows(rows, cols);
        assert forall|r: int| 0 <= r < blank.len() implies row_whole(#[trigger] blank[r]) by {
            assert(blank[r] == resized_row(Seq::empty(), r, cols));
        }
    }
}

/// A resize loses no more of the cells that stay on the screen than it has to:
/// mending changes only cells of the new last column in which a wide character
/// started.
pub proof fn lemma_mending_only_touches_cut_characters(
    old: Seq<Seq<CellView>>,
    size: (u16, u16),
    rows: u16,
    cols: u16,
    r: int,
    c: int,
)
    requires
        shaped(old, size) || old.len() == 0,
        0 <= r < rows,
        0 <= c < cols,
        mended_rows(resized_rows(old, rows, cols))[r][c] != resized_rows(old, rows, cols)[r][c],
    ensures
        c == cols - 1,
        r < old.len() && c < old[r].len() && old[r][c].wide,
{
    let plain = resized_rows(old, rows, cols);
    assert(plain[r] == resized_row(old, r, cols));
    assert(mended_rows(plain)[r] == mended_row(plain[r]));
}

/// The emulator gets the size that is closest to the one that is asked for
/// among those that it can take output at: at least 2 rows, and 3 to 65527
/// columns.
pub proof fn lemma_fitting_sizes_are_the_closest(rows: u16, cols: u16, other_rows: u16, other_cols: u16)
    requires
        2 <= other_rows,
        3 <= other_cols <= 65527,
    ensures
        2 <= fitting_rows(rows),
        3 <= fitting_cols(cols) <= 65527,
        rows <= fitting_rows(rows),
        fitting_rows(rows) - rows <= if other_rows < rows {
            rows - other_rows
        } else {
            other_rows - rows
        },
        ({
            let off = if fitting_cols(cols) < cols {
                cols - fitting_cols(cols)
            } else {
                fitting_cols(cols) - cols
            };
            off <= if other_cols < cols {
                cols - other_cols
            } else {
                other_cols - cols
            }
        }),
{
}

/// What a resize makes of every cell: one that stays on the screen keeps its
/// place and what it shows, unless it is the first half of a wide character
/// whose second half is cut off, and the cells that are new are blank. The
/// cursor stays, or moves to the nearest cell that is left.
pub proof fn lemma_resizing_keeps_the_cells(
    old: vt100::Screen,
    new: vt100::Screen,
    rows: u16,
    cols: u16,
    alternate: bool,
    r: int,
    c: int,
)
    requires
        refit_effect(old, new, rows, cols),
        0 <= r < rows,
        0 <= c < cols,
    ensures
        ({
            let before = screen_rows(old, alternate);
            let after = screen_rows(new, alternate);
            let kept = r < before.len() && c < before[r].len();
            let cut = kept && c == cols - 1 && before[r][c].wide;
            &&& after.len() == rows && after[r].len() == cols
            &&& kept && !cut ==> after[r][c] == before[r][c]
            &&& !kept || cut ==> after[r][c].contents.len() == 0 && !after[r][c].wide
        }),
        ({
            let (was, is) = (screen_at(old, alternate), screen_at(new, alternate));
            &&& is.0 < rows && is.1 < cols
            &&& was.0 < rows ==> is.0 == was.0
            &&& was.0 >= rows ==> is.0 == rows - 1
            &&& was.1 < cols ==> is.1 == was.1
            &&& was.1 >= cols ==> is.1 == cols - 1
        }),
        screen_size(new) == (rows, cols),
{
    let plain = resized_rows(screen_rows(old, alternate), rows, cols);
    assert(screen_rows(new, alternate) == mended_rows(plain));
    assert(plain[r] == resized_row(screen_rows(old, alternate), r, cols));
    assert(mended_rows(plain)[r] == mended_row(plain[r]));
    assert(screen_at(new, alternate) == pulled_back(screen_at(old, alternate), rows, cols));
}

/// A resize is asked to mend exactly where a wide character would stand across
/// the new right edge.
pub proof fn lemma_wide_characters_across_the_edge_are_mended(
    screen: vt100::Screen,
    cols: u16,
    alternate: bool,
    r: int,
)
    requires
        0 < cols < screen_size(screen).1,
        0 <= r < screen_rows(screen, alternate).len(),
        cols <= screen_rows(screen, alternate)[r].len(),
        screen_rows(screen, alternate)[r][cols - 1].wide,
    ensures
        would_cut(screen, cols),
{
    assert(starts_in(screen_rows(screen, alternate), (cols - 1) as u16));
}

} // verus!
