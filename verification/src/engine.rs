//! The executable engine: two mirrored boards, the side to move and the
//! number of pieces each side has left.

use vstd::prelude::*;
use crate::counting::{lemma_pieces_take, pieces};
use crate::errors::CheckersError;
use crate::invariants::{
    lemma_crowned_wf, lemma_moved_wf, lemma_put_mirrored, lemma_start_wf, lemma_struck_wf,
};
use crate::laws::lemma_turn_keeps_position_well_formed;
use crate::position::{striker, Position};
use crate::tiles::{in_reach, landing, lemma_jump_is_two_steps, lemma_landing_follows_diagonal};

verus! {

/// What a piece can be asked to do: step one square along a diagonal, or
/// jump two squares along it over an opposing piece.
///
/// North is the direction in which the mover's men advance.
#[derive(Debug, Clone, Copy, PartialEq, Eq, Structural)]
pub enum Action {
    MoveNorthwest,
    MoveNortheast,
    MoveSouthwest,
    MoveSoutheast,
    JumpNorthwest,
    JumpNortheast,
    JumpSouthwest,
    JumpSoutheast,
}

/// How a call of [`Engine::make_move`] left the game.
#[derive(Debug, Clone, Copy, PartialEq, Eq, Structural)]
pub enum CheckersResult {
    /// The game goes on; the flag names the side that decides next
    /// (`true` for red).
    Continue(bool),
    /// The game is over; the flag names the winner (`true` for red).
    Win(bool),
}

/// A game of checkers.
///
/// Both boards describe the same position, each from its owner's side of
/// the table: a positive cell is a piece of the board's owner (1 a man,
/// 2 a king), a negative cell a piece of the opponent, 0 an empty square.
/// [`Engine::wf`] says when the five fields fit together; [`Engine::new`]
/// and [`Engine::make_move`] keep them so.
#[derive(Debug, PartialEq, Eq)]
pub struct Engine {
    /// The board as red sees it.
    pub board_red: [i8; 32],
    /// The board as black sees it: `board_red` turned round, with the
    /// colours exchanged.
    pub board_black: [i8; 32],
    /// `true` when red is to move.
    pub current_player: bool,
    /// How many pieces red has on the board.
    pub red_pieces: u8,
    /// How many pieces black has on the board.
    pub black_pieces: u8,
}

impl View for Engine {
    type V = Position;

    open spec fn view(&self) -> Position {
        Position {
            red: self.board_red@,
            black: self.board_black@,
            red_to_move: self.current_player,
            red_pieces: self.red_pieces as nat,
            black_pieces: self.black_pieces as nat,
        }
    }
}

impl Engine {
    /// The engine holds a position as play can reach it.
    pub open spec fn wf(&self) -> bool {
        self@.wf()
    }

    /// Whether the engine holds a position as play can reach it: boards
    /// that agree, cells that hold men, kings or nothing, and counts that
    /// match the boards.
    pub fn is_well_formed(&self) -> (ok: bool)
        ensures
            ok == self.wf(),
    {
        let mut red: u8 = 0;
        let mut black: u8 = 0;
        let mut tile: usize = 0;
        while tile < 32
            invariant
                tile <= 32,
                forall|i: int| 0 <= i < tile ==> -2 <= #[trigger] self.board_red@[i] <= 2,
                forall|i: int|
                    0 <= i < tile ==> #[trigger] self.board_black@[i] == -self.board_red@[31 - i],
                red == pieces(self.board_red@.take(tile as int)),
                black == pieces(self.board_black@.take(tile as int)),
                red <= tile,
                black <= tile,
            decreases 32 - tile,
        {
            let cell: i8 = self.board_red[tile];
            let seen: i8 = self.board_black[tile];
            let faced: i8 = self.board_red[31 - tile];
            if cell < -2 || cell > 2 || faced < -2 || faced > 2 || seen != 0 - faced {
                return false;
            }
            proof {
                lemma_pieces_take(self.board_red@, tile as int);
                lemma_pieces_take(self.board_black@, tile as int);
            }
            if cell > 0 {
                red += 1;
            }
            if seen > 0 {
                black += 1;
            }
            tile += 1;
        }
        proof {
            assert(self.board_red@.take(32) =~= self.board_red@);
            assert(self.board_black@.take(32) =~= self.board_black@);
        }
        red == self.red_pieces && black == self.black_pieces && red <= 12 && black <= 12
    }

    /// A game at its start: twelve men a side, black to move.
    pub fn new() -> (engine: Engine)
        ensures
            engine@ == Position::start(),
            engine.wf(),
    {
        let board: [i8; 32] = [
            -1, -1, -1, -1, -1, -1, -1, -1,
            -1, 0, -1, 0, -1, 0, -1, 0,
            0, 1, 0, 1, 0, 1, 0, 1,
            1, 1, 1, 1, 1, 1, 1, 1,
        ];
        proof {
            assert(board@ =~= Position::start().red);
            lemma_start_wf();
        }
        Engine {
            board_red: board,
            board_black: board,
            current_player: false,
            red_pieces: 12,
            black_pieces: 12,
        }
    }

    /// The tile on which a piece standing on `tile` comes down after
    /// `action`. Nothing is checked against the edges of the board: the
    /// result only has to fit the machine type.
    pub fn action_on_tile(tile: u8, action: &Action) -> (target: u8)
        requires
            0 <= landing(tile as int, *action) <= u8::MAX,
        ensures
            target == landing(tile as int, *action),
    {
        match action {
            Action::MoveNorthwest => {
                if tile % 2 == 0 {
                    tile - 9
                } else {
                    tile - 1
                }
            },
            Action::MoveNortheast => {
                if tile % 2 == 0 {
                    tile - 7
                } else {
                    tile + 1
                }
            },
            Action::MoveSouthwest => {
                if tile % 2 == 0 {
                    tile - 1
                } else {
                    tile + 7
                }
            },
            Action::MoveSoutheast => {
                if tile % 2 == 0 {
                    tile + 1
                } else {
                    tile + 9
                }
            },
            Action::JumpNorthwest => tile - 10,
            Action::JumpNortheast => tile - 6,
            Action::JumpSouthwest => tile + 6,
            Action::JumpSoutheast => tile + 10,
        }
    }

    /// Whether `action` from `tile` stays on the board, by the number of
    /// the tile alone.
    fn clears_edges(tile: u8, action: &Action) -> (clear: bool)
        requires
            tile <= 31,
        ensures
            clear == in_reach(tile as int, *action),
    {
        match action {
            // north and west edge
            Action::MoveNorthwest => !((tile % 2 == 0) && (tile % 8 == 0 || tile < 8)),
            Action::MoveNortheast => {
                if tile % 2 == 0 {
                    // north edge
                    tile >= 8
                } else {
                    // east edge
                    (tile + 1) % 8 != 0
                }
            },
            Action::MoveSouthwest => {
                if tile % 2 == 0 {
                    // west edge
                    tile % 8 != 0
                } else {
                    // south edge
                    tile <= 23
                }
            },
            // south and east edge
            Action::MoveSoutheast => !((tile % 2 == 1) && (tile > 23 || ((tile + 1) % 8 == 0))),
            // two rows from the north edge, two columns from the west edge
            Action::JumpNorthwest => !((tile < 8) || (tile % 8 == 0) || (tile - 1) % 8 == 0),
            // two rows from the north edge, two columns from the east edge
            Action::JumpNortheast => !((tile < 8) || ((tile + 1) % 8 == 0) || ((tile + 2) % 8
                == 0)),
            // two rows from the south edge, two columns from the west edge
            Action::JumpSouthwest => !((tile > 23) || (tile % 8 == 0) || ((tile - 1) % 8 == 0)),
            // two rows from the south edge, two columns from the east edge
            Action::JumpSoutheast => !((tile > 23) || ((tile + 1) % 8 == 0) || ((tile + 2) % 8
                == 0)),
        }
    }

    /// Whether the side to move may play `action` with the piece on `tile`.
    pub fn is_move_valid(&self, tile: u8, action: &Action) -> (valid: bool)
        ensures
            valid == self@.allows(tile as int, *action),
    {
        if tile > 31 {
            return false;
        }
        let board = self.get_board();
        let piece: i8 = board[tile as usize];

        // only a piece of the side to move can be moved
        if piece <= 0 {
            return false;
        }
        if !Engine::clears_edges(tile, action) {
            return false;
        }
        proof {
            lemma_landing_follows_diagonal(tile as int, *action);
            if action.is_jump() {
                lemma_jump_is_two_steps(tile as int, *action);
                lemma_landing_follows_diagonal(tile as int, action.single_step());
            }
        }
        match action {
            Action::MoveNorthwest | Action::MoveNortheast => {},
            Action::MoveSouthwest | Action::MoveSoutheast => {
                // a man does not go back
                if piece == 1 {
                    return false;
                }
            },
            Action::JumpNorthwest => {
                if board[Engine::action_on_tile(tile, &Action::MoveNorthwest) as usize] >= 0 {
                    return false;
                }
            },
            Action::JumpNortheast => {
                if board[Engine::action_on_tile(tile, &Action::MoveNortheast) as usize] >= 0 {
                    return false;
                }
            },
            Action::JumpSouthwest => {
                if piece == 1
                    || board[Engine::action_on_tile(tile, &Action::MoveSouthwest) as usize] >= 0 {
                    return false;
                }
            },
            Action::JumpSoutheast => {
                if piece == 1
                    || board[Engine::action_on_tile(tile, &Action::MoveSoutheast) as usize] >= 0 {
                    return false;
                }
            },
        }

        // the square where the piece comes down must be empty
        board[Engine::action_on_tile(tile, action) as usize] == 0
    }

    /// Plays `action` with the piece on `tile` for the side to move, and
    /// every capture that is forced after it.
    ///
    /// An illegal request is refused and changes nothing. A plain move
    /// passes the turn; a jump takes the piece it passes over, wins the
    /// game if that was the last one, and otherwise goes on as long as the
    /// jumping piece has exactly one further jump. Whenever the turn
    /// passes, a single way to take the piece that moved last is played at
    /// once for the other side.
    pub fn make_move(&mut self, tile: u8, action: Action) -> (result: Result<
        CheckersResult,
        CheckersError,
    >)
        requires
            old(self).wf(),
        ensures
            final(self).wf(),
            result is Err <==> !old(self)@.allows(tile as int, action),
            result is Err ==> final(self)@ == old(self)@,
            result == old(self)@.play(tile as int, action).result,
            final(self)@ == old(self)@.play(tile as int, action).position,
            final(self).red_pieces <= old(self).red_pieces,
            final(self).black_pieces <= old(self).black_pieces,
            result matches Ok(CheckersResult::Continue(side)) ==> side
                == final(self).current_player,
            result matches Ok(CheckersResult::Win(side)) ==> {
                &&& side == final(self).current_player
                &&& if side {
                    final(self).black_pieces == 0
                } else {
                    final(self).red_pieces == 0
                }
            },
        decreases old(self).red_pieces + old(self).black_pieces,
            (if action.is_jump() {
                0int
            } else {
                3int
            }),
    {
        proof {
            lemma_turn_keeps_position_well_formed(self@, tile as int, action);
        }
        if !self.is_move_valid(tile, &action) {
            return Err(CheckersError::IllegalMove);
        }
        proof {
            lemma_landing_follows_diagonal(tile as int, action);
        }
        let landing_tile: u8 = Engine::action_on_tile(tile, &action);
        match &action {
            Action::MoveNorthwest
            | Action::MoveNortheast
            | Action::MoveSouthwest
            | Action::MoveSoutheast => {
                self.relocate(tile, &action);
                // the turn passes, and the other side looks at the piece
                // that has just come down
                self.current_player = !self.current_player;
                return self.handle_inward_jump(31 - landing_tile);
            },
            _ => {},
        }
        proof {
            lemma_struck_wf(self@, tile as int, action);
        }
        self.remove_jumped(tile, &action);
        if self.black_pieces == 0 || self.red_pieces == 0 {
            return Ok(CheckersResult::Win(self.current_player));
        }
        self.relocate(tile, &action);
        self.handle_outward_jump(landing_tile)
    }

    /// Takes the piece on `tile` to the empty square where `action` leads,
    /// and crowns it there if that is due.
    fn relocate(&mut self, tile: u8, action: &Action)
        requires
            old(self).wf(),
            old(self)@.own()[tile as int] > 0,
            in_reach(tile as int, *action),
            old(self)@.own()[landing(tile as int, *action)] == 0,
        ensures
            final(self).wf(),
            final(self)@ == old(self)@.moved(tile as int, *action),
    {
        proof {
            lemma_landing_follows_diagonal(tile as int, *action);
            lemma_moved_wf(self@, tile as int, *action);
        }
        let landing_tile: u8 = Engine::action_on_tile(tile, action);
        let piece: i8 = self.get_board()[tile as usize];
        self.update_board(landing_tile, piece);
        self.update_board(tile, 0);
        self.handle_king(landing_tile);
    }

    /// Takes the piece that `jump` from `tile` passes over off the board
    /// and off the count of its side.
    fn remove_jumped(&mut self, tile: u8, jump: &Action)
        requires
            old(self).wf(),
            jump.is_jump(),
            old(self)@.allows(tile as int, *jump),
        ensures
            final(self).wf(),
            final(self)@ == old(self)@.struck(tile as int, *jump),
    {
        proof {
            lemma_struck_wf(self@, tile as int, *jump);
        }
        let killed_tile: u8 = match jump {
            Action::JumpNorthwest | Action::MoveNorthwest => Engine::action_on_tile(
                tile,
                &Action::MoveNorthwest,
            ),
            Action::JumpNortheast | Action::MoveNortheast => Engine::action_on_tile(
                tile,
                &Action::MoveNortheast,
            ),
            Action::JumpSouthwest | Action::MoveSouthwest => Engine::action_on_tile(
                tile,
                &Action::MoveSouthwest,
            ),
            Action::JumpSoutheast | Action::MoveSoutheast => Engine::action_on_tile(
                tile,
                &Action::MoveSoutheast,
            ),
        };
        self.update_board(killed_tile, 0);
        if self.current_player {
            self.black_pieces -= 1;
        } else {
            self.red_pieces -= 1;
        }
    }

    /// The tile from which `jump` passes over `tile`, if a piece of the
    /// side to move stands there and can make that jump.
    fn find_striker(&self, tile: u8, jump: &Action) -> (from: Option<u8>)
        requires
            tile <= 31,
        ensures
            from is Some <==> self@.allows(striker(tile as int, *jump), *jump),
            from is Some ==> from->0 == striker(tile as int, *jump),
    {
        let even: bool = tile % 2 == 0;
        let from: u8 = match jump {
            Action::JumpSoutheast | Action::MoveSoutheast => {
                // the jump starts north-west of the tile
                if even {
                    if tile < 9 {
                        return None;
                    }
                    tile - 9
                } else {
                    tile - 1
                }
            },
            Action::JumpSouthwest | Action::MoveSouthwest => {
                // the jump starts north-east of the tile
                if even {
                    if tile < 7 {
                        return None;
                    }
                    tile - 7
                } else {
                    tile + 1
                }
            },
            Action::JumpNortheast | Action::MoveNortheast => {
                // the jump starts south-west of the tile
                if even {
                    if tile < 1 {
                        return None;
                    }
                    tile - 1
                } else {
                    tile + 7
                }
            },
            Action::JumpNorthwest | Action::MoveNorthwest => {
                // the jump starts south-east of the tile
                if even {
                    tile + 1
                } else {
                    tile + 9
                }
            },
        };
        if self.is_move_valid(from, jump) {
            Some(from)
        } else {
            None
        }
    }

    /// After the turn has passed: plays the capture of the piece on
    /// `landing_tile` if the side to move has exactly one, and leaves the
    /// decision to it otherwise.
    fn handle_inward_jump(&mut self, landing_tile: u8) -> (result: Result<
        CheckersResult,
        CheckersError,
    >)
        requires
            old(self).wf(),
            landing_tile <= 31,
        ensures
            final(self).wf(),
            result is Ok,
            result == old(self)@.respond(landing_tile as int).result,
            final(self)@ == old(self)@.respond(landing_tile as int).position,
        decreases old(self).red_pieces + old(self).black_pieces, 1int,
    {
        let southeast: Option<u8> = self.find_striker(landing_tile, &Action::JumpSoutheast);
        let southwest: Option<u8> = self.find_striker(landing_tile, &Action::JumpSouthwest);
        let northeast: Option<u8> = self.find_striker(landing_tile, &Action::JumpNortheast);
        let northwest: Option<u8> = self.find_striker(landing_tile, &Action::JumpNorthwest);
        match (southeast, southwest, northeast, northwest) {
            (Some(from), None, None, None) => self.make_move(from, Action::JumpSoutheast),
            (None, Some(from), None, None) => self.make_move(from, Action::JumpSouthwest),
            (None, None, Some(from), None) => self.make_move(from, Action::JumpNortheast),
            (None, None, None, Some(from)) => self.make_move(from, Action::JumpNorthwest),
            _ => Ok(CheckersResult::Continue(self.current_player)),
        }
    }

    /// After a capture has come down on `landing_tile`: passes the turn if
    /// the piece has no further jump, plays the jump if it has exactly
    /// one, and leaves the decision to the mover otherwise.
    fn handle_outward_jump(&mut self, landing_tile: u8) -> (result: Result<
        CheckersResult,
        CheckersError,
    >)
        requires
            old(self).wf(),
            landing_tile <= 31,
        ensures
            final(self).wf(),
            result is Ok,
            result == old(self)@.pursue(landing_tile as int).result,
            final(self)@ == old(self)@.pursue(landing_tile as int).position,
        decreases old(self).red_pieces + old(self).black_pieces, 2int,
    {
        let northwest: bool = self.is_move_valid(landing_tile, &Action::JumpNorthwest);
        let northeast: bool = self.is_move_valid(landing_tile, &Action::JumpNortheast);
        let southwest: bool = self.is_move_valid(landing_tile, &Action::JumpSouthwest);
        let southeast: bool = self.is_move_valid(landing_tile, &Action::JumpSoutheast);
        match (northwest, northeast, southwest, southeast) {
            (false, false, false, false) => {
                // the chain has ended: the turn passes
                self.current_player = !self.current_player;
                self.handle_inward_jump(31 - landing_tile)
            },
            (true, false, false, false) => self.make_move(landing_tile, Action::JumpNorthwest),
            (false, true, false, false) => self.make_move(landing_tile, Action::JumpNortheast),
            (false, false, true, false) => self.make_move(landing_tile, Action::JumpSouthwest),
            (false, false, false, true) => self.make_move(landing_tile, Action::JumpSoutheast),
            _ => Ok(CheckersResult::Continue(self.current_player)),
        }
    }

    /// Crowns the mover's man on `tile` if it stands in the mover's far
    /// row; changes nothing otherwise.
    pub fn handle_king(&mut self, tile: u8)
        ensures
            final(self)@ == old(self)@.crowned(tile as int),
            old(self)@.mirrored() ==> final(self)@.mirrored(),
            old(self).wf() ==> final(self).wf(),
    {
        let board: [i8; 32] = if self.current_player {
            self.board_red
        } else {
            self.board_black
        };
        if tile < 7 && tile % 2 == 0 && board[tile as usize] == 1 {
            proof {
                if self.wf() {
                    lemma_crowned_wf(self@, tile as int);
                }
            }
            self.update_board(tile, 2);
        }
    }

    /// The board as red sees it.
    pub fn peek_red(&self) -> (board: &[i8; 32])
        ensures
            board@ == self@.red,
    {
        &self.board_red
    }

    /// The board as black sees it.
    pub fn peek_black(&self) -> (board: &[i8; 32])
        ensures
            board@ == self@.black,
    {
        &self.board_black
    }

    /// A copy of the board as red sees it.
    pub fn peek_red_python(&self) -> (board: [i8; 32])
        ensures
            board@ == self@.red,
    {
        self.board_red
    }

    /// A copy of the board as black sees it.
    pub fn peek_black_python(&self) -> (board: [i8; 32])
        ensures
            board@ == self@.black,
    {
        self.board_black
    }

    /// The board as the side to move sees it.
    pub fn get_board(&self) -> (board: &[i8; 32])
        ensures
            board@ == self@.own(),
    {
        if self.current_player {
            &self.board_red
        } else {
            &self.board_black
        }
    }

    /// Writes `value` to `tile` of the mover's board and what the other
    /// side sees of it to the other board, so that two boards that agree
    /// still agree.
    pub fn update_board(&mut self, tile: u8, value: i8)
        requires
            tile <= 31,
            value > i8::MIN,
        ensures
            final(self)@ == old(self)@.put(tile as int, value),
            old(self)@.mirrored() ==> final(self)@.mirrored(),
    {
        proof {
            if self@.mirrored() {
                lemma_put_mirrored(self@, tile as int, value);
            }
        }
        if self.current_player {
            self.board_red[tile as usize] = value;
            self.board_black[31 - tile as usize] = 0 - value;
        } else {
            self.board_black[tile as usize] = value;
            self.board_red[31 - tile as usize] = 0 - value;
        }
    }
}

} // verus!
