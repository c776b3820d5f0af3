//! Lists of grid cells in reading order.

use vstd::prelude::*;

verus! {

/// Whether cell `a` comes before cell `b` in reading order.
pub open spec fn before(a: (u16, u16), b: (u16, u16)) -> bool {
    a.0 < b.0 || (a.0 == b.0 && a.1 < b.1)
}

/// Whether the cells stand in reading order, none of them twice.
pub open spec fn in_reading_order(cells: Seq<(u16, u16)>) -> bool {
    forall|i: int, j: int| 0 <= i < j < cells.len() ==> before(#[trigger] cells[i], #[trigger] cells[j])
}

/// Whether cell `a` comes before cell `b` in reading order.
pub fn comes_before(a: (u16, u16), b: (u16, u16)) -> (earlier: bool)
    ensures
        earlier == before(a, b),
{
    a.0 < b.0 || (a.0 == b.0 && a.1 < b.1)
}

/// Adds `cell` to a list in reading order, unless it is already there.
pub fn add_cell(cells: &mut Vec<(u16, u16)>, cell: (u16, u16))
    requires
        in_reading_order(old(cells)@),
    ensures
        in_reading_order(final(cells)@),
        forall|c: (u16, u16)|
            #[trigger] final(cells)@.contains(c) <==> old(cells)@.contains(c) || c == cell,
        final(cells)@.len() <= old(cells)@.len() + 1,
{
    let mut i: usize = cells.len();
    while i > 0 && comes_before(cell, cells[i - 1])
        invariant
            i <= cells@.len(),
            cells@ == old(cells)@,
            in_reading_order(cells@),
            forall|j: int| i <= j < cells@.len() ==> before(cell, #[trigger] cells@[j]),
        decreases i,
    {
        i -= 1;
    }
    if i > 0 && cells[i - 1].0 == cell.0 && cells[i - 1].1 == cell.1 {
        assert(cells@[i - 1] == cell);
        return ;
    }
    let ghost cells0 = cells@;
    assert forall|j: int| 0 <= j < i implies before(#[trigger] cells0[j], cell) by {
        if j < i - 1 {
            assert(before(cells0[j], cells0[i - 1]));
        }
    }
    cells.insert(i, cell);
    assert(cells@ == cells0.insert(i as int, cell));
    assert forall|c: (u16, u16)| #[trigger] cells@.contains(c) <==> cells0.contains(c) || c
        == cell by {
        if cells0.contains(c) {
            let k = choose|k: int| 0 <= k < cells0.len() && cells0[k] == c;
            assert(cells@[if k < i { k } else { k + 1 }] == c);
        }
        if c == cell {
            assert(cells@[i as int] == c);
        }
        if cells@.contains(c) {
            let k = choose|k: int| 0 <= k < cells@.len() && cells@[k] == c;
            if k < i {
                assert(cells0[k] == c);
            } else if k > i {
                assert(cells0[k - 1] == c);
            }
        }
    }
}

/// Appends a cell that comes after all cells of the list.
pub fn append_cell(cells: &mut Vec<(u16, u16)>, cell: (u16, u16))
    requires
        in_reading_order(old(cells)@),
        forall|c: (u16, u16)| #[trigger] old(cells)@.contains(c) ==> before(c, cell),
    ensures
        in_reading_order(final(cells)@),
        forall|c: (u16, u16)|
            #[trigger] final(cells)@.contains(c) <==> old(cells)@.contains(c) || c == cell,
{
    let ghost cells0 = cells@;
    cells.push(cell);
    assert forall|i: int, j: int| 0 <= i < j < cells@.len() implies before(
        #[trigger] cells@[i],
        #[trigger] cells@[j],
    ) by {
        assert(cells0.contains(cells0[i]));
    }
    assert forall|c: (u16, u16)| #[trigger] cells@.contains(c) <==> cells0.contains(c) || c
        == cell by {
        if cells0.contains(c) {
            let k = choose|k: int| 0 <= k < cells0.len() && cells0[k] == c;
            assert(cells@[k] == c);
        }
        if c == cell {
            assert(cells@[cells0.len() as int] == c);
        }
        if cells@.contains(c) && c != cell {
            let k = choose|k: int| 0 <= k < cells@.len() && cells@[k] == c;
            assert(cells0[k] == c);
        }
    }
}

/// Two lists in reading order with the same cells are the same list.
pub proof fn lemma_reading_order_is_unique(a: Seq<(u16, u16)>, b: Seq<(u16, u16)>)
    requires
        in_reading_order(a),
        in_reading_order(b),
        forall|c: (u16, u16)| a.contains(c) <==> b.contains(c),
    ensures
        a == b,
    decreases a.len(),
{
    if a.len() == 0 {
        if b.len() > 0 {
            assert(b.contains(b[0]));
            assert(a.contains(b[0]));
        }
        assert(a =~= b);
    } else {
        assert(a.contains(a.last()));
        assert(b.contains(a.last()));
        assert(b.contains(b.last()));
        assert(a.contains(b.last()));
        let i = choose|i: int| 0 <= i < a.len() && a[i] == b.last();
        let j = choose|j: int| 0 <= j < b.len() && b[j] == a.last();
        assert(a.last() == b.last()) by {
            if i < a.len() - 1 && j < b.len() - 1 {
                assert(before(a[i], a.last()));
                assert(before(b[j], b.last()));
            }
        }
        let a1 = a.drop_last();
        let b1 = b.drop_last();
        assert forall|c: (u16, u16)| a1.contains(c) <==> b1.contains(c) by {
            if a1.contains(c) {
                let k = choose|k: int| 0 <= k < a1.len() && a1[k] == c;
                assert(before(a[k], a.last()));
                assert(a.contains(c));
                assert(b.contains(c));
                let m = choose|m: int| 0 <= m < b.len() && b[m] == c;
                assert(b1[m] == c);
            }
            if b1.contains(c) {
                let k = choose|k: int| 0 <= k < b1.len() && b1[k] == c;
                assert(before(b[k], b.last()));
                assert(b.contains(c));
                assert(a.contains(c));
                let m = choose|m: int| 0 <= m < a.len() && a[m] == c;
                assert(a1[m] == c);
            }
        }
        lemma_reading_order_is_unique(a1, b1);
        assert(a =~= a1.push(a.last()));
        assert(b =~= b1.push(b.last()));
    }
}

} // verus!
