//! What every step of a turn keeps true of a position.

use vstd::prelude::*;
use crate::counting::{lemma_pieces_take, lemma_pieces_update, owned, pieces};
use crate::engine::Action;
use crate::position::{opposed, Position};
use crate::tiles::{
    facing, in_reach, is_tile, landing, lemma_jump_is_two_steps, lemma_landing_follows_diagonal,
};

verus! {

/// How many of its owner's men the first `n` cells of a board hold when a
/// game starts.
spec fn start_pieces(n: int) -> int {
    if n <= 17 {
        0
    } else if n <= 24 {
        (n - 16) / 2
    } else {
        n - 20
    }
}

proof fn lemma_start_prefix(n: int)
    requires
        0 <= n <= 32,
    ensures
        pieces(Position::start().red.take(n)) == start_pieces(n),
    decreases n,
{
    let cells = Position::start().red;
    if n == 0 {
        assert(cells.take(0) =~= Seq::<i8>::empty());
    } else {
        lemma_start_prefix(n - 1);
        lemma_pieces_take(cells, n - 1);
    }
}

/// The starting position is well formed.
pub proof fn lemma_start_wf()
    ensures
        Position::start().wf(),
{
    let start = Position::start();
    lemma_start_prefix(32);
    assert(start.red.take(32) =~= start.red);
    assert(start.black =~= start.red);
}

/// A paired write keeps the two boards in agreement.
pub proof fn lemma_put_mirrored(position: Position, tile: int, cell: i8)
    requires
        position.mirrored(),
        is_tile(tile),
        cell > i8::MIN,
    ensures
        position.put(tile, cell).mirrored(),
{
    let after = position.put(tile, cell);
    assert forall|i: int| 0 <= i < 32 implies #[trigger] after.black[i] == -after.red[31 - i] by {
        assert(position.black[i] == -position.red[31 - i]);
    }
}

/// In boards that agree, each cell of one is the opposite of the cell
/// that faces it in the other.
pub proof fn lemma_mirrored_cells(position: Position, tile: int)
    requires
        position.mirrored(),
        is_tile(tile),
    ensures
        position.other()[facing(tile)] == -position.own()[tile],
        position.own()[facing(tile)] == -position.other()[tile],
{
    assert(position.black[tile] == -position.red[31 - tile]);
    assert(position.black[31 - tile] == -position.red[31 - (31 - tile)]);
}

/// A paired write of a man, a king or nothing to boards that agree leaves
/// them in agreement and their cells valid, and changes the number of
/// pieces on each board by what the board gains or loses.
proof fn lemma_put_counts(position: Position, tile: int, cell: i8)
    requires
        position.mirrored(),
        position.cells_valid(),
        is_tile(tile),
        -2 <= cell <= 2,
    ensures
        position.put(tile, cell).mirrored(),
        position.put(tile, cell).cells_valid(),
        pieces(position.put(tile, cell).own()) + owned(position.own()[tile]) == pieces(
            position.own(),
        ) + owned(cell),
        pieces(position.put(tile, cell).other()) + owned(position.other()[facing(tile)])
            == pieces(position.other()) + owned(opposed(cell)),
{
    let after = position.put(tile, cell);
    lemma_put_mirrored(position, tile, cell);
    lemma_pieces_update(position.own(), tile, cell);
    lemma_pieces_update(position.other(), facing(tile), opposed(cell));
    assert forall|i: int| 0 <= i < after.red.len() implies -2 <= #[trigger] after.red[i] <= 2 by {
        assert(-2 <= position.red[i] <= 2);
    }
    assert forall|i: int| 0 <= i < after.black.len() implies -2 <= #[trigger] after.black[i]
        <= 2 by {
        assert(-2 <= position.black[i] <= 2);
    }
}

/// Crowning keeps a position well formed.
pub proof fn lemma_crowned_wf(position: Position, tile: int)
    requires
        position.wf(),
    ensures
        position.crowned(tile).wf(),
{
    if position.crowned(tile) != position {
        lemma_put_counts(position, tile, 2);
        lemma_mirrored_cells(position, tile);
    }
}

/// Taking a piece to an empty square keeps a position well formed and
/// changes neither count.
pub proof fn lemma_moved_wf(position: Position, tile: int, action: Action)
    requires
        position.wf(),
        position.own()[tile] > 0,
        in_reach(tile, action),
        position.own()[landing(tile, action)] == 0,
    ensures
        position.moved(tile, action).wf(),
        position.moved(tile, action).red_to_move == position.red_to_move,
        position.moved(tile, action).red_pieces == position.red_pieces,
        position.moved(tile, action).black_pieces == position.black_pieces,
{
    let target = landing(tile, action);
    let piece = position.own()[tile];
    lemma_landing_follows_diagonal(tile, action);
    assert(-2 <= piece <= 2) by {
        assert(-2 <= position.red[tile] <= 2);
        assert(-2 <= position.black[tile] <= 2);
    }
    let lifted = position.put(target, piece);
    lemma_put_counts(position, target, piece);
    lemma_mirrored_cells(position, target);
    let placed = lifted.put(tile, 0);
    lemma_put_counts(lifted, tile, 0);
    lemma_mirrored_cells(lifted, tile);
    lemma_crowned_wf(placed, target);
}

/// Before a legal jump each side has a piece on the board, the one that
/// jumps and the one passed over, and taking the latter keeps the
/// position well formed. The jumping piece and the empty square that it
/// heads for are as they were.
pub proof fn lemma_struck_wf(position: Position, tile: int, jump: Action)
    requires
        position.wf(),
        jump.is_jump(),
        position.allows(tile, jump),
    ensures
        is_tile(landing(tile, jump.single_step())),
        is_tile(landing(tile, jump)),
        position.red_pieces >= 1,
        position.black_pieces >= 1,
        position.struck(tile, jump).wf(),
        position.struck(tile, jump).red_to_move == position.red_to_move,
        position.struck(tile, jump).red_pieces + position.struck(tile, jump).black_pieces + 1
            == position.red_pieces + position.black_pieces,
        position.struck(tile, jump).own()[tile] == position.own()[tile],
        position.struck(tile, jump).own()[landing(tile, jump)] == 0,
{
    let over = landing(tile, jump.single_step());
    lemma_jump_is_two_steps(tile, jump);
    lemma_landing_follows_diagonal(tile, jump.single_step());
    lemma_landing_follows_diagonal(tile, jump);
    lemma_put_counts(position, over, 0);
    lemma_mirrored_cells(position, over);
    lemma_pieces_update(position.own(), tile, 0);
}

} // verus!
