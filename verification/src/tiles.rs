//! The packed numbering of the 32 playable squares.
//!
//! Tile `t` stands in column `t % 8`; tiles `8k .. 8k + 7` fill the two
//! rows `2k` and `2k + 1`, the even tiles the upper one. Row 0 is the far
//! row of the side whose board it is, so that side's men walk north,
//! towards smaller rows.

use vstd::prelude::*;
use crate::engine::Action;

verus! {

/// The row of a tile, 0 (north) to 7 (south).
pub open spec fn row_of(tile: int) -> int {
    2 * (tile / 8) + tile % 2
}

/// The column of a tile, 0 (west) to 7 (east).
pub open spec fn col_of(tile: int) -> int {
    tile % 8
}

/// The tile in a given row and column, for a playable square.
pub open spec fn tile_at(row: int, col: int) -> int {
    8 * (row / 2) + col
}

/// Whether `tile` numbers a square of the board.
pub open spec fn is_tile(tile: int) -> bool {
    0 <= tile < 32
}

/// The same square in the numbering of the player on the other side.
pub open spec fn facing(tile: int) -> int {
    31 - tile
}

impl Action {
    /// A jump covers two squares, a plain move one.
    pub open spec fn is_jump(self) -> bool {
        self is JumpNorthwest || self is JumpNortheast || self is JumpSouthwest
            || self is JumpSoutheast
    }

    /// Whether the action heads for row 0.
    pub open spec fn northward(self) -> bool {
        self is MoveNorthwest || self is MoveNortheast || self is JumpNorthwest
            || self is JumpNortheast
    }

    /// Whether the action heads for column 7.
    pub open spec fn eastward(self) -> bool {
        self is MoveNortheast || self is MoveSoutheast || self is JumpNortheast
            || self is JumpSoutheast
    }

    /// How many squares the action covers along its diagonal.
    pub open spec fn reach(self) -> int {
        if self.is_jump() {
            2
        } else {
            1
        }
    }

    /// By how many rows the action moves a piece.
    pub open spec fn row_step(self) -> int {
        if self.northward() {
            -self.reach()
        } else {
            self.reach()
        }
    }

    /// By how many columns the action moves a piece.
    pub open spec fn col_step(self) -> int {
        if self.eastward() {
            self.reach()
        } else {
            -self.reach()
        }
    }

    /// The plain move in the direction of the action.
    pub open spec fn single_step(self) -> Action {
        match self {
            Action::MoveNorthwest | Action::JumpNorthwest => Action::MoveNorthwest,
            Action::MoveNortheast | Action::JumpNortheast => Action::MoveNortheast,
            Action::MoveSouthwest | Action::JumpSouthwest => Action::MoveSouthwest,
            Action::MoveSoutheast | Action::JumpSoutheast => Action::MoveSoutheast,
        }
    }

    /// The same kind of action in the opposite direction.
    pub open spec fn reversed(self) -> Action {
        match self {
            Action::MoveNorthwest => Action::MoveSoutheast,
            Action::MoveNortheast => Action::MoveSouthwest,
            Action::MoveSouthwest => Action::MoveNortheast,
            Action::MoveSoutheast => Action::MoveNorthwest,
            Action::JumpNorthwest => Action::JumpSoutheast,
            Action::JumpNortheast => Action::JumpSouthwest,
            Action::JumpSouthwest => Action::JumpNortheast,
            Action::JumpSoutheast => Action::JumpNorthwest,
        }
    }

    /// What the action adds to the number of the tile it starts from. A
    /// plain move changes rows within a pair of rows or between two pairs,
    /// depending on the parity of the tile; a jump does not.
    pub open spec fn offset(self, tile: int) -> int {
        let even = tile % 2 == 0;
        match self {
            Action::MoveNorthwest => if even { -9 } else { -1 },
            Action::MoveNortheast => if even { -7 } else { 1 },
            Action::MoveSouthwest => if even { -1 } else { 7 },
            Action::MoveSoutheast => if even { 1 } else { 9 },
            Action::JumpNorthwest => -10,
            Action::JumpNortheast => -6,
            Action::JumpSouthwest => 6,
            Action::JumpSoutheast => 10,
        }
    }
}

/// The number of the tile that `action` leads to from `tile`.
pub open spec fn landing(tile: int, action: Action) -> int {
    tile + action.offset(tile)
}

/// Whether `action` from `tile` stays on the board.
pub open spec fn in_reach(tile: int, action: Action) -> bool {
    &&& is_tile(tile)
    &&& 0 <= row_of(tile) + action.row_step() < 8
    &&& 0 <= col_of(tile) + action.col_step() < 8
}

/// An action that stays on the board leads to the square that lies
/// `reach` rows and columns away along its diagonal.
pub proof fn lemma_landing_follows_diagonal(tile: int, action: Action)
    requires
        in_reach(tile, action),
    ensures
        is_tile(landing(tile, action)),
        row_of(landing(tile, action)) == row_of(tile) + action.row_step(),
        col_of(landing(tile, action)) == col_of(tile) + action.col_step(),
        landing(tile, action) == tile_at(
            row_of(tile) + action.row_step(),
            col_of(tile) + action.col_step(),
        ),
{
}

/// A jump comes down where two plain moves in its direction lead, and
/// both of them stay on the board when the jump does.
pub proof fn lemma_jump_is_two_steps(tile: int, jump: Action)
    requires
        jump.is_jump(),
        in_reach(tile, jump),
    ensures
        in_reach(tile, jump.single_step()),
        in_reach(landing(tile, jump.single_step()), jump.single_step()),
        landing(landing(tile, jump.single_step()), jump.single_step()) == landing(tile, jump),
{
}

/// Stepping back from where a move led returns to the start.
pub proof fn lemma_step_back(tile: int, action: Action)
    requires
        in_reach(tile, action),
    ensures
        in_reach(landing(tile, action), action.reversed()),
        landing(landing(tile, action), action.reversed()) == tile,
{
}

/// Turning the board round turns every row, column and direction round.
pub proof fn lemma_facing_geometry(tile: int, action: Action)
    requires
        is_tile(tile),
    ensures
        is_tile(facing(tile)),
        facing(facing(tile)) == tile,
        row_of(facing(tile)) == 7 - row_of(tile),
        col_of(facing(tile)) == 7 - col_of(tile),
        in_reach(tile, action) <==> in_reach(facing(tile), action.reversed()),
        in_reach(tile, action) ==> facing(landing(tile, action)) == landing(
            facing(tile),
            action.reversed(),
        ),
{
}

} // verus!
