//! How many pieces of its owner a board holds.

use vstd::prelude::*;

verus! {

/// 1 for a cell that holds a piece of the board's owner, 0 for any other.
pub open spec fn owned(cell: i8) -> nat {
    if cell > 0 {
        1
    } else {
        0
    }
}

/// The number of cells that hold a piece of the board's owner.
pub open spec fn pieces(cells: Seq<i8>) -> nat
    decreases cells.len(),
{
    if cells.len() == 0 {
        0
    } else {
        pieces(cells.drop_last()) + owned(cells.last())
    }
}

/// Writing one cell changes the count by what the cell gains or loses.
pub proof fn lemma_pieces_update(cells: Seq<i8>, i: int, cell: i8)
    requires
        0 <= i < cells.len(),
    ensures
        pieces(cells.update(i, cell)) + owned(cells[i]) == pieces(cells) + owned(cell),
    decreases cells.len(),
{
    let written = cells.update(i, cell);
    if i == cells.len() - 1 {
        assert(written.drop_last() =~= cells.drop_last());
    } else {
        lemma_pieces_update(cells.drop_last(), i, cell);
        assert(written.drop_last() =~= cells.drop_last().update(i, cell));
    }
}

/// Counting a prefix that is one cell longer adds that cell.
pub proof fn lemma_pieces_take(cells: Seq<i8>, n: int)
    requires
        0 <= n < cells.len(),
    ensures
        pieces(cells.take(n + 1)) == pieces(cells.take(n)) + owned(cells[n]),
{
    assert(cells.take(n + 1).drop_last() =~= cells.take(n));
}

} // verus!
