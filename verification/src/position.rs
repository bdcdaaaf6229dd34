//! The model of a game: what a position is, which moves it allows, and
//! what one turn makes of it.

use vstd::prelude::*;
use crate::counting::pieces;
use crate::engine::{Action, CheckersResult};
use crate::errors::CheckersError;
use crate::tiles::{facing, in_reach, is_tile, landing, row_of};

verus! {

/// A game state.
///
/// `red` and `black` are the board as each side sees it: a positive cell
/// is a piece of the side whose board it is (1 a man, 2 a king), a
/// negative cell a piece of the other side, 0 an empty square.
pub struct Position {
    pub red: Seq<i8>,
    pub black: Seq<i8>,
    pub red_to_move: bool,
    pub red_pieces: nat,
    pub black_pieces: nat,
}

/// A position together with what the caller of a move is told.
pub struct Outcome {
    pub position: Position,
    pub result: Result<CheckersResult, CheckersError>,
}

/// `n - 1`, and 0 where `n` is 0.
pub open spec fn one_less(n: nat) -> nat {
    if n > 0 {
        (n - 1) as nat
    } else {
        0
    }
}

/// The cell that the other side sees where this side sees `cell`.
pub open spec fn opposed(cell: i8) -> i8 {
    (-cell) as i8
}

/// What a cell of either board holds when a game starts: the opponent's
/// men in the three northern rows, the owner's men in the three southern
/// rows.
pub open spec fn start_cell(tile: int) -> i8 {
    if row_of(tile) <= 2 {
        -1i8
    } else if row_of(tile) >= 5 {
        1i8
    } else {
        0i8
    }
}

/// The tile from which `jump` passes over `tile`.
pub open spec fn striker(tile: int, jump: Action) -> int {
    landing(tile, jump.single_step().reversed())
}

impl Position {
    /// The position from which every game starts. Black moves first.
    pub open spec fn start() -> Position {
        Position {
            red: Seq::new(32, |i: int| start_cell(i)),
            black: Seq::new(32, |i: int| start_cell(i)),
            red_to_move: false,
            red_pieces: 12,
            black_pieces: 12,
        }
    }

    /// The board as the side to move sees it.
    pub open spec fn own(self) -> Seq<i8> {
        if self.red_to_move {
            self.red
        } else {
            self.black
        }
    }

    /// The board as the side that waits sees it.
    pub open spec fn other(self) -> Seq<i8> {
        if self.red_to_move {
            self.black
        } else {
            self.red
        }
    }

    /// The two boards have 32 cells each and show the same position: each
    /// is the other turned round, with the colours exchanged.
    pub open spec fn mirrored(self) -> bool {
        &&& self.red.len() == 32
        &&& self.black.len() == 32
        &&& forall|i: int| 0 <= i < 32 ==> #[trigger] self.black[i] == -self.red[31 - i]
    }

    /// Every cell of either board holds a man, a king or nothing.
    pub open spec fn cells_valid(self) -> bool {
        &&& forall|i: int| 0 <= i < self.red.len() ==> -2 <= #[trigger] self.red[i] <= 2
        &&& forall|i: int| 0 <= i < self.black.len() ==> -2 <= #[trigger] self.black[i] <= 2
    }

    /// A position as play can reach it: two boards that agree, cells that
    /// hold men, kings or nothing, and counts that say how many pieces of
    /// each side stand on the board, twelve at most.
    pub open spec fn wf(self) -> bool {
        &&& self.mirrored()
        &&& self.cells_valid()
        &&& self.red_pieces == pieces(self.red)
        &&& self.black_pieces == pieces(self.black)
        &&& self.red_pieces <= 12
        &&& self.black_pieces <= 12
    }

    /// The position with `cell` written to `tile` of the mover's board,
    /// and what the other side sees of it to its own board.
    pub open spec fn put(self, tile: int, cell: i8) -> Position {
        if self.red_to_move {
            Position {
                red: self.red.update(tile, cell),
                black: self.black.update(facing(tile), opposed(cell)),
                ..self
            }
        } else {
            Position {
                black: self.black.update(tile, cell),
                red: self.red.update(facing(tile), opposed(cell)),
                ..self
            }
        }
    }

    /// Whether the side to move may play `action` with the piece on
    /// `tile`: the piece is its own, a man heads north, the action stays
    /// on the board, a jump passes over a piece of the opponent, and the
    /// square where the piece comes down is empty.
    pub open spec fn allows(self, tile: int, action: Action) -> bool {
        &&& is_tile(tile)
        &&& self.own()[tile] > 0
        &&& self.own()[tile] == 1 ==> action.northward()
        &&& in_reach(tile, action)
        &&& action.is_jump() ==> self.own()[landing(tile, action.single_step())] < 0
        &&& self.own()[landing(tile, action)] == 0
    }

    /// The position with the mover's man on `tile` made a king, if a man
    /// stands there and `tile` lies in the mover's far row.
    pub open spec fn crowned(self, tile: int) -> Position {
        if is_tile(tile) && row_of(tile) == 0 && self.own()[tile] == 1 {
            self.put(tile, 2)
        } else {
            self
        }
    }

    /// The position with the piece on `tile` taken to where `action`
    /// leads, and crowned there if that is due.
    pub open spec fn moved(self, tile: int, action: Action) -> Position {
        let target = landing(tile, action);
        self.put(target, self.own()[tile]).put(tile, 0).crowned(target)
    }

    /// The position with the piece that a jump from `tile` passes over
    /// taken off the board and off its side's count.
    pub open spec fn struck(self, tile: int, jump: Action) -> Position {
        let cleared = self.put(landing(tile, jump.single_step()), 0);
        if self.red_to_move {
            Position { black_pieces: one_less(self.black_pieces), ..cleared }
        } else {
            Position { red_pieces: one_less(self.red_pieces), ..cleared }
        }
    }

    /// The position with the turn handed to the other side.
    pub open spec fn passed(self) -> Position {
        Position { red_to_move: !self.red_to_move, ..self }
    }

    /// The position left for the side to move to decide on.
    pub open spec fn awaits(self) -> Outcome {
        Outcome { position: self, result: Ok(CheckersResult::Continue(self.red_to_move)) }
    }

    /// `jump` from `tile` if the position allows it.
    pub open spec fn jump_if_legal(self, tile: int, jump: Action) -> Seq<(int, Action)> {
        if self.allows(tile, jump) {
            seq![(tile, jump)]
        } else {
            seq![]
        }
    }

    /// The jumps that the piece on `tile` can make.
    pub open spec fn jumps_from(self, tile: int) -> Seq<(int, Action)> {
        self.jump_if_legal(tile, Action::JumpNorthwest) + self.jump_if_legal(
            tile,
            Action::JumpNortheast,
        ) + self.jump_if_legal(tile, Action::JumpSouthwest) + self.jump_if_legal(
            tile,
            Action::JumpSoutheast,
        )
    }

    /// The jumps by which the side to move can take the piece on `tile`.
    pub open spec fn jumps_over(self, tile: int) -> Seq<(int, Action)> {
        self.jump_if_legal(striker(tile, Action::JumpSoutheast), Action::JumpSoutheast)
            + self.jump_if_legal(striker(tile, Action::JumpSouthwest), Action::JumpSouthwest)
            + self.jump_if_legal(striker(tile, Action::JumpNortheast), Action::JumpNortheast)
            + self.jump_if_legal(striker(tile, Action::JumpNorthwest), Action::JumpNorthwest)
    }

    /// What a legal jump from `tile` leads to. The piece passed over
    /// leaves the board. If a side is then without a piece, the game is
    /// won on the spot and the jumping piece stays where it stood.
    /// Otherwise the piece comes down and goes on capturing.
    pub open spec fn capture(self, tile: int, jump: Action) -> Outcome
        decreases self.red_pieces + self.black_pieces, 0int,
    {
        let struck = self.struck(tile, jump);
        if struck.red_pieces == 0 || struck.black_pieces == 0 {
            Outcome { position: struck, result: Ok(CheckersResult::Win(self.red_to_move)) }
        } else {
            struck.moved(tile, jump).pursue(landing(tile, jump))
        }
    }

    /// What follows when a capturing piece has come down on `tile`. With
    /// no further jump the turn passes; a single further jump is made at
    /// once; among several the mover decides.
    pub open spec fn pursue(self, tile: int) -> Outcome
        decreases self.red_pieces + self.black_pieces, 2int,
    {
        let jumps = self.jumps_from(tile);
        if jumps.len() == 0 {
            self.passed().respond(facing(tile))
        } else if jumps.len() == 1 {
            self.capture(jumps[0].0, jumps[0].1)
        } else {
            self.awaits()
        }
    }

    /// What follows when the turn has come to the side to move and the
    /// piece that moved last stands on `tile` of its board. A single way
    /// to take that piece is made at once; otherwise the mover decides.
    pub open spec fn respond(self, tile: int) -> Outcome
        decreases self.red_pieces + self.black_pieces, 1int,
    {
        let jumps = self.jumps_over(tile);
        if jumps.len() == 1 {
            self.capture(jumps[0].0, jumps[0].1)
        } else {
            self.awaits()
        }
    }

    /// What a request to play `action` with the piece on `tile` leads to.
    /// An illegal request changes nothing. A plain move takes the piece to
    /// its new square and passes the turn; a jump captures.
    pub open spec fn play(self, tile: int, action: Action) -> Outcome {
        if !self.allows(tile, action) {
            Outcome { position: self, result: Err(CheckersError::IllegalMove) }
        } else if action.is_jump() {
            self.capture(tile, action)
        } else {
            self.moved(tile, action).passed().respond(facing(landing(tile, action)))
        }
    }

    /// The position in which a game stands after the requests `turns`,
    /// each a tile and an action, have been made one after another.
    pub open spec fn reached(turns: Seq<(int, Action)>) -> Position
        decreases turns.len(),
    {
        if turns.len() == 0 {
            Position::start()
        } else {
            Position::reached(turns.drop_last()).play(turns.last().0, turns.last().1).position
        }
    }
}

} // verus!
