//! Theorems about the rules: what every turn keeps true, and what the
//! rules on legal moves, forced captures, crowning and winning amount to.

use vstd::prelude::*;
use crate::counting::pieces;
use crate::engine::{Action, CheckersResult};
use crate::errors::CheckersError;
use crate::invariants::{lemma_moved_wf, lemma_start_wf, lemma_struck_wf};
use crate::position::{striker, Outcome, Position};
use crate::tiles::{
    facing, in_reach, is_tile, landing, lemma_landing_follows_diagonal, row_of,
};

verus! {

/// What holds of the outcome of a legal turn that started from `before`:
/// the position is well formed, no side has gained a piece, the side
/// named in the result is the side to move, and a win is reported exactly
/// of a side whose opponent has no piece left.
pub open spec fn settled(before: Position, outcome: Outcome) -> bool {
    let after = outcome.position;
    &&& after.wf()
    &&& after.red_pieces <= before.red_pieces
    &&& after.black_pieces <= before.black_pieces
    &&& match outcome.result {
        Ok(CheckersResult::Continue(side)) => side == after.red_to_move,
        Ok(CheckersResult::Win(side)) => {
            &&& side == after.red_to_move
            &&& if side {
                after.black_pieces == 0
            } else {
                after.red_pieces == 0
            }
        },
        Err(_) => false,
    }
}

/// Every jump that `jumps_from` lists starts from the tile asked about
/// and is legal.
pub proof fn lemma_jumps_from_legal(position: Position, tile: int, k: int)
    requires
        0 <= k < position.jumps_from(tile).len(),
    ensures
        position.jumps_from(tile)[k].0 == tile,
        position.jumps_from(tile)[k].1.is_jump(),
        position.allows(tile, position.jumps_from(tile)[k].1),
{
}

/// The first step of a jump from the striker's tile leads to the tile
/// that the jump is to pass over.
pub proof fn lemma_striker_passes_over(tile: int, jump: Action)
    ensures
        landing(striker(tile, jump), jump.single_step()) == tile,
{
}

/// Every jump that `jumps_over` lists is legal and passes over the tile
/// asked about.
pub proof fn lemma_jumps_over_legal(position: Position, tile: int, k: int)
    requires
        0 <= k < position.jumps_over(tile).len(),
    ensures
        position.jumps_over(tile)[k].1.is_jump(),
        position.allows(position.jumps_over(tile)[k].0, position.jumps_over(tile)[k].1),
        landing(position.jumps_over(tile)[k].0, position.jumps_over(tile)[k].1.single_step())
            == tile,
{
    let found = position.jumps_over(tile)[k];
    assert(found.1.is_jump() && found.0 == striker(tile, found.1));
    lemma_striker_passes_over(tile, found.1);
}

/// `jumps_from` leaves out no legal jump of the piece on the tile asked
/// about, and lists none twice.
pub proof fn lemma_jumps_from_complete(position: Position, tile: int, jump: Action)
    requires
        jump.is_jump(),
        position.allows(tile, jump),
    ensures
        position.jumps_from(tile).contains((tile, jump)),
        position.jumps_from(tile).no_duplicates(),
{
    let northwest = position.jump_if_legal(tile, Action::JumpNorthwest);
    let northeast = position.jump_if_legal(tile, Action::JumpNortheast);
    let southwest = position.jump_if_legal(tile, Action::JumpSouthwest);
    let jumps = position.jumps_from(tile);
    let at: int = match jump {
        Action::JumpNorthwest => 0,
        Action::JumpNortheast => northwest.len() as int,
        Action::JumpSouthwest => (northwest.len() + northeast.len()) as int,
        _ => (northwest.len() + northeast.len() + southwest.len()) as int,
    };
    assert(jumps[at] == (tile, jump));
}

/// `jumps_over` leaves out no legal jump that passes over the tile asked
/// about, and lists none twice.
pub proof fn lemma_jumps_over_complete(position: Position, tile: int, from: int, jump: Action)
    requires
        jump.is_jump(),
        position.allows(from, jump),
        landing(from, jump.single_step()) == tile,
    ensures
        position.jumps_over(tile).contains((from, jump)),
        position.jumps_over(tile).no_duplicates(),
{
    let southeast = position.jump_if_legal(
        striker(tile, Action::JumpSoutheast),
        Action::JumpSoutheast,
    );
    let southwest = position.jump_if_legal(
        striker(tile, Action::JumpSouthwest),
        Action::JumpSouthwest,
    );
    let northeast = position.jump_if_legal(
        striker(tile, Action::JumpNortheast),
        Action::JumpNortheast,
    );
    let jumps = position.jumps_over(tile);
    assert(from == striker(tile, jump));
    let at: int = match jump {
        Action::JumpSoutheast => 0,
        Action::JumpSouthwest => southeast.len() as int,
        Action::JumpNortheast => (southeast.len() + southwest.len()) as int,
        _ => (southeast.len() + southwest.len() + northeast.len()) as int,
    };
    assert(jumps[at] == (from, jump));
}

proof fn lemma_capture_settled(position: Position, tile: int, jump: Action)
    requires
        position.wf(),
        jump.is_jump(),
        position.allows(tile, jump),
    ensures
        settled(position, position.capture(tile, jump)),
    decreases position.red_pieces + position.black_pieces, 0int,
{
    let struck = position.struck(tile, jump);
    lemma_struck_wf(position, tile, jump);
    if !(struck.red_pieces == 0 || struck.black_pieces == 0) {
        lemma_moved_wf(struck, tile, jump);
        lemma_pursue_settled(struck.moved(tile, jump), landing(tile, jump));
    }
}

proof fn lemma_pursue_settled(position: Position, tile: int)
    requires
        position.wf(),
    ensures
        settled(position, position.pursue(tile)),
    decreases position.red_pieces + position.black_pieces, 2int,
{
    let jumps = position.jumps_from(tile);
    if jumps.len() == 0 {
        lemma_respond_settled(position.passed(), facing(tile));
    } else if jumps.len() == 1 {
        lemma_jumps_from_legal(position, tile, 0);
        lemma_capture_settled(position, jumps[0].0, jumps[0].1);
    }
}

proof fn lemma_respond_settled(position: Position, tile: int)
    requires
        position.wf(),
    ensures
        settled(position, position.respond(tile)),
    decreases position.red_pieces + position.black_pieces, 1int,
{
    let jumps = position.jumps_over(tile);
    if jumps.len() == 1 {
        lemma_jumps_over_legal(position, tile, 0);
        lemma_capture_settled(position, jumps[0].0, jumps[0].1);
    }
}

/// A request is refused exactly when it is illegal, and a refused request
/// leaves the position as it was. Every legal turn, with all the captures
/// that are forced in it, leaves a well-formed position: the two boards
/// agree cell by cell, and each side's count is the number of its pieces
/// on the board. No turn adds a piece to either side.
pub proof fn lemma_turn_keeps_position_well_formed(position: Position, tile: int, action: Action)
    requires
        position.wf(),
    ensures
        position.play(tile, action).position.wf(),
        position.play(tile, action).result is Err <==> !position.allows(tile, action),
        position.play(tile, action).result is Err ==> position.play(tile, action).position
            == position,
        position.play(tile, action).result is Ok ==> settled(
            position,
            position.play(tile, action),
        ),
{
    if position.allows(tile, action) {
        if action.is_jump() {
            lemma_capture_settled(position, tile, action);
        } else {
            lemma_moved_wf(position, tile, action);
            lemma_respond_settled(
                position.moved(tile, action).passed(),
                facing(landing(tile, action)),
            );
        }
    }
}

/// Every position that a game can reach is well formed.
pub proof fn lemma_reached_position_is_well_formed(turns: Seq<(int, Action)>)
    ensures
        Position::reached(turns).wf(),
    decreases turns.len(),
{
    if turns.len() == 0 {
        lemma_start_wf();
    } else {
        lemma_reached_position_is_well_formed(turns.drop_last());
        lemma_turn_keeps_position_well_formed(
            Position::reached(turns.drop_last()),
            turns.last().0,
            turns.last().1,
        );
    }
}

/// In every position that a game can reach, each cell of black's board
/// is the opposite of the cell that faces it in red's board.
pub proof fn lemma_boards_stay_mirrored(turns: Seq<(int, Action)>, i: int)
    requires
        0 <= i < 32,
    ensures
        Position::reached(turns).black[i] == -Position::reached(turns).red[31 - i],
{
    lemma_reached_position_is_well_formed(turns);
    assert(Position::reached(turns).mirrored());
}

/// In every position that a game can reach, each side's count is the
/// number of its pieces on the board, which is twelve less what the side
/// has lost; and a further turn never raises a count.
pub proof fn lemma_counts_follow_board(turns: Seq<(int, Action)>, tile: int, action: Action)
    ensures
        Position::reached(turns).red_pieces == pieces(Position::reached(turns).red) <= 12,
        Position::reached(turns).black_pieces == pieces(Position::reached(turns).black) <= 12,
        Position::reached(turns.push((tile, action))).red_pieces <= Position::reached(
            turns,
        ).red_pieces,
        Position::reached(turns.push((tile, action))).black_pieces <= Position::reached(
            turns,
        ).black_pieces,
{
    lemma_reached_position_is_well_formed(turns);
    lemma_turn_keeps_position_well_formed(Position::reached(turns), tile, action);
    assert(turns.push((tile, action)).drop_last() =~= turns);
}

/// A man never moves or jumps south.
pub proof fn lemma_man_never_retreats(position: Position, tile: int, action: Action)
    requires
        position.own()[tile] == 1,
        !action.northward(),
    ensures
        !position.allows(tile, action),
{
}

/// A king may step to any empty square next to it on a diagonal, and
/// jump in any direction over a piece of the opponent to an empty
/// square.
pub proof fn lemma_king_goes_any_way(position: Position, tile: int, action: Action)
    requires
        position.own()[tile] == 2,
        in_reach(tile, action),
        position.own()[landing(tile, action)] == 0,
        action.is_jump() ==> position.own()[landing(tile, action.single_step())] < 0,
    ensures
        position.allows(tile, action),
{
}

/// For a piece that may head in the direction of a jump, the jump is
/// legal if and only if both squares are on the board, the nearer one
/// holds a piece of the opponent and the farther one is empty.
pub proof fn lemma_jump_rule(position: Position, tile: int, jump: Action)
    requires
        is_tile(tile),
        jump.is_jump(),
        position.own()[tile] == 2 || (position.own()[tile] == 1 && jump.northward()),
    ensures
        position.allows(tile, jump) <==> {
            &&& in_reach(tile, jump.single_step())
            &&& in_reach(landing(tile, jump.single_step()), jump.single_step())
            &&& position.own()[landing(tile, jump.single_step())] < 0
            &&& position.own()[landing(landing(tile, jump.single_step()), jump.single_step())]
                == 0
        },
{
}

/// When a plain move has passed the turn, the other side takes the piece
/// that moved if it has exactly one way to do so, and that capture is
/// part of the same turn. With no way or with several ways the turn ends
/// with the plain move, and the other side decides.
pub proof fn lemma_single_reply_is_forced(position: Position, tile: int, action: Action)
    requires
        position.allows(tile, action),
        !action.is_jump(),
    ensures
        ({
            let handed = position.moved(tile, action).passed();
            let replies = handed.jumps_over(facing(landing(tile, action)));
            if replies.len() == 1 {
                position.play(tile, action) == handed.capture(replies[0].0, replies[0].1)
            } else {
                position.play(tile, action) == (Outcome {
                    position: handed,
                    result: Ok(CheckersResult::Continue(!position.red_to_move)),
                })
            }
        }),
{
}

/// When a capture has come down and the game is not won, the piece goes
/// on with its next jump if it has exactly one, within the same turn.
/// With several jumps the mover decides. With none the turn passes, and
/// the other side answers as after a plain move.
pub proof fn lemma_single_continuation_is_forced(position: Position, tile: int, jump: Action)
    requires
        position.allows(tile, jump),
        jump.is_jump(),
        position.struck(tile, jump).red_pieces > 0,
        position.struck(tile, jump).black_pieces > 0,
    ensures
        ({
            let landed = position.struck(tile, jump).moved(tile, jump);
            let target = landing(tile, jump);
            let further = landed.jumps_from(target);
            if further.len() == 1 {
                position.play(tile, jump) == landed.capture(target, further[0].1)
            } else if further.len() == 0 {
                position.play(tile, jump) == landed.passed().respond(facing(target))
            } else {
                position.play(tile, jump) == (Outcome {
                    position: landed,
                    result: Ok(CheckersResult::Continue(position.red_to_move)),
                })
            }
        }),
{
    let landed = position.struck(tile, jump).moved(tile, jump);
    let target = landing(tile, jump);
    if landed.jumps_from(target).len() == 1 {
        lemma_jumps_from_legal(landed, target, 0);
    }
}

/// A forced capture costs the side that suffers it a piece: after a
/// plain move that leaves the other side exactly one way to take the
/// piece, the mover has fewer pieces than before.
pub proof fn lemma_forced_reply_takes_a_piece(position: Position, tile: int, action: Action)
    requires
        position.wf(),
        position.allows(tile, action),
        !action.is_jump(),
        position.moved(tile, action).passed().jumps_over(facing(landing(tile, action))).len()
            == 1,
    ensures
        ({
            let after = position.play(tile, action).position;
            if position.red_to_move {
                after.red_pieces < position.red_pieces
            } else {
                after.black_pieces < position.black_pieces
            }
        }),
{
    let handed = position.moved(tile, action).passed();
    let replies = handed.jumps_over(facing(landing(tile, action)));
    lemma_moved_wf(position, tile, action);
    lemma_jumps_over_legal(handed, facing(landing(tile, action)), 0);
    lemma_struck_wf(handed, replies[0].0, replies[0].1);
    let struck = handed.struck(replies[0].0, replies[0].1);
    if !(struck.red_pieces == 0 || struck.black_pieces == 0) {
        lemma_moved_wf(struck, replies[0].0, replies[0].1);
        lemma_pursue_settled(
            struck.moved(replies[0].0, replies[0].1),
            landing(replies[0].0, replies[0].1),
        );
    }
}

/// A capture that takes the last piece of the opponent wins at once: the
/// piece passed over is gone, the count is zero, and the capturing piece
/// still stands where it stood, neither moved nor crowned.
pub proof fn lemma_last_capture_wins_at_once(position: Position, tile: int, jump: Action)
    requires
        position.wf(),
        position.allows(tile, jump),
        jump.is_jump(),
        if position.red_to_move {
            position.black_pieces == 1
        } else {
            position.red_pieces == 1
        },
    ensures
        position.play(tile, jump).result == Ok::<CheckersResult, CheckersError>(
            CheckersResult::Win(position.red_to_move),
        ),
        position.play(tile, jump).position == position.struck(tile, jump),
        position.play(tile, jump).position.own() == position.own().update(
            landing(tile, jump.single_step()),
            0,
        ),
        position.play(tile, jump).position.own()[tile] == position.own()[tile],
        if position.red_to_move {
            position.play(tile, jump).position.black_pieces == 0
        } else {
            position.play(tile, jump).position.red_pieces == 0
        },
{
    lemma_struck_wf(position, tile, jump);
}

/// A capture wins only if it takes the last piece: while the opponent
/// has more than one piece, the capturing piece comes down and the game
/// goes on from there.
pub proof fn lemma_capture_goes_on(position: Position, tile: int, jump: Action)
    requires
        position.wf(),
        position.allows(tile, jump),
        jump.is_jump(),
        if position.red_to_move {
            position.black_pieces > 1
        } else {
            position.red_pieces > 1
        },
    ensures
        position.play(tile, jump) == position.struck(tile, jump).moved(tile, jump).pursue(
            landing(tile, jump),
        ),
{
    lemma_struck_wf(position, tile, jump);
}

/// The piece that a move brings to its new square is a king exactly when
/// it was a king already or is a man that has reached the mover's far
/// row. The square it left is empty, and every other square is as it
/// was.
pub proof fn lemma_crowned_on_far_row(position: Position, tile: int, action: Action)
    requires
        position.mirrored(),
        1 <= position.own()[tile] <= 2,
        in_reach(tile, action),
    ensures
        ({
            let target = landing(tile, action);
            let after = position.moved(tile, action).own();
            &&& after[target] == (if row_of(target) == 0 {
                2i8
            } else {
                position.own()[tile]
            })
            &&& after[tile] == 0
            &&& forall|other: int|
                is_tile(other) && other != tile && other != target ==> after[other]
                    == #[trigger] position.own()[other]
        }),
{
    lemma_landing_follows_diagonal(tile, action);
}

} // verus!
