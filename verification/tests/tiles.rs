//! The tile numbering and the legality of single actions.

use checkers_engine::engine::{Action, Engine};

const ACTIONS: [Action; 8] = [
    Action::MoveNorthwest,
    Action::MoveNortheast,
    Action::MoveSouthwest,
    Action::MoveSoutheast,
    Action::JumpNorthwest,
    Action::JumpNortheast,
    Action::JumpSouthwest,
    Action::JumpSoutheast,
];

/// An engine whose side to move sees `own`; the other board and the
/// counts are derived from it.
fn engine_for(own: [i8; 32], red_to_move: bool) -> Engine {
    let mut other = [0i8; 32];
    for i in 0..32 {
        other[31 - i] = -own[i];
    }
    let mine = own.iter().filter(|cell| **cell > 0).count() as u8;
    let theirs = own.iter().filter(|cell| **cell < 0).count() as u8;
    if red_to_move {
        Engine {
            board_red: own,
            board_black: other,
            current_player: true,
            red_pieces: mine,
            black_pieces: theirs,
        }
    } else {
        Engine {
            board_red: other,
            board_black: own,
            current_player: false,
            red_pieces: theirs,
            black_pieces: mine,
        }
    }
}

fn board_with(cells: &[(usize, i8)]) -> [i8; 32] {
    let mut board = [0i8; 32];
    for (tile, cell) in cells {
        board[*tile] = *cell;
    }
    board
}

fn legal_actions(engine: &Engine, tile: u8) -> Vec<Action> {
    ACTIONS.iter().copied().filter(|action| engine.is_move_valid(tile, action)).collect()
}

fn row_of(tile: u8) -> i32 {
    2 * (tile as i32 / 8) + tile as i32 % 2
}

fn col_of(tile: u8) -> i32 {
    tile as i32 % 8
}

fn steps(action: &Action) -> (i32, i32) {
    match action {
        Action::MoveNorthwest => (-1, -1),
        Action::MoveNortheast => (-1, 1),
        Action::MoveSouthwest => (1, -1),
        Action::MoveSoutheast => (1, 1),
        Action::JumpNorthwest => (-2, -2),
        Action::JumpNortheast => (-2, 2),
        Action::JumpSouthwest => (2, -2),
        Action::JumpSoutheast => (2, 2),
    }
}

#[test]
fn action_on_even_tile() {
    assert_eq!(Engine::action_on_tile(10, &Action::MoveNorthwest), 1);
    assert_eq!(Engine::action_on_tile(10, &Action::MoveNortheast), 3);
    assert_eq!(Engine::action_on_tile(10, &Action::MoveSouthwest), 9);
    assert_eq!(Engine::action_on_tile(10, &Action::MoveSoutheast), 11);
    assert_eq!(Engine::action_on_tile(10, &Action::JumpNorthwest), 0);
    assert_eq!(Engine::action_on_tile(10, &Action::JumpNortheast), 4);
    assert_eq!(Engine::action_on_tile(10, &Action::JumpSouthwest), 16);
    assert_eq!(Engine::action_on_tile(10, &Action::JumpSoutheast), 20);
}

#[test]
fn action_on_odd_tile() {
    assert_eq!(Engine::action_on_tile(21, &Action::MoveNorthwest), 20);
    assert_eq!(Engine::action_on_tile(21, &Action::MoveNortheast), 22);
    assert_eq!(Engine::action_on_tile(21, &Action::MoveSouthwest), 28);
    assert_eq!(Engine::action_on_tile(21, &Action::MoveSoutheast), 30);
    assert_eq!(Engine::action_on_tile(21, &Action::JumpNorthwest), 11);
    assert_eq!(Engine::action_on_tile(21, &Action::JumpNortheast), 15);
    assert_eq!(Engine::action_on_tile(21, &Action::JumpSouthwest), 27);
    assert_eq!(Engine::action_on_tile(21, &Action::JumpSoutheast), 31);
}

#[test]
fn action_on_tile_past_the_edge_is_only_arithmetic() {
    // tile 31 stands in the last column: the step east leaves the board
    assert_eq!(Engine::action_on_tile(31, &Action::MoveNortheast), 32);
    // tile 16 stands in the first column: the offset wraps to another row
    assert_eq!(Engine::action_on_tile(16, &Action::MoveNorthwest), 7);
}

#[test]
fn action_on_tile_follows_the_diagonal_wherever_it_stays_on_the_board() {
    for tile in 0u8..32 {
        for action in ACTIONS.iter() {
            let (rows, cols) = steps(action);
            let row = row_of(tile) + rows;
            let col = col_of(tile) + cols;
            if (0..8).contains(&row) && (0..8).contains(&col) {
                let target = Engine::action_on_tile(tile, action);
                assert!(target < 32);
                assert_eq!(row_of(target), row);
                assert_eq!(col_of(target), col);
            }
        }
    }
}

#[test]
fn a_lone_king_moves_exactly_where_the_board_goes_on() {
    for tile in 0u8..32 {
        let engine = engine_for(board_with(&[(tile as usize, 2)]), false);
        assert!(engine.is_well_formed());
        for action in ACTIONS.iter() {
            let (rows, cols) = steps(action);
            let row = row_of(tile) + rows;
            let col = col_of(tile) + cols;
            let on_board = (0..8).contains(&row) && (0..8).contains(&col);
            let plain = rows.abs() == 1;
            assert_eq!(engine.is_move_valid(tile, action), on_board && plain);
        }
    }
}

#[test]
fn a_lone_man_moves_north_only() {
    for tile in 0u8..32 {
        let engine = engine_for(board_with(&[(tile as usize, 1)]), true);
        assert!(engine.is_well_formed());
        for action in ACTIONS.iter() {
            let (rows, cols) = steps(action);
            let row = row_of(tile) + rows;
            let col = col_of(tile) + cols;
            let on_board = (0..8).contains(&row) && (0..8).contains(&col);
            assert_eq!(engine.is_move_valid(tile, action), on_board && rows == -1);
        }
    }
}

#[test]
fn man_on_odd_tile_cannot_step_southwest() {
    let man = engine_for(board_with(&[(9, 1)]), false);
    assert!(!man.is_move_valid(9, &Action::MoveSouthwest));
    assert!(!man.is_move_valid(9, &Action::MoveSoutheast));
    let king = engine_for(board_with(&[(9, 2)]), false);
    assert!(king.is_move_valid(9, &Action::MoveSouthwest));
    assert!(king.is_move_valid(9, &Action::MoveSoutheast));
}

#[test]
fn corner_kings() {
    let engine = engine_for(board_with(&[(0, 2), (31, 2), (7, 2), (24, 2)]), false);
    assert_eq!(legal_actions(&engine, 0), vec![Action::MoveSoutheast]);
    assert_eq!(legal_actions(&engine, 31), vec![Action::MoveNorthwest]);
    assert_eq!(legal_actions(&engine, 7), vec![Action::MoveNorthwest, Action::MoveSouthwest]);
    assert_eq!(legal_actions(&engine, 24), vec![Action::MoveNortheast, Action::MoveSoutheast]);
}

#[test]
fn tile_out_of_range_is_never_valid() {
    let engine = Engine::new();
    for action in ACTIONS.iter() {
        assert!(!engine.is_move_valid(32, action));
        assert!(!engine.is_move_valid(255, action));
    }
}

#[test]
fn empty_and_opposing_tiles_are_never_valid() {
    let engine = engine_for(board_with(&[(13, -2), (18, 1)]), false);
    for action in ACTIONS.iter() {
        assert!(!engine.is_move_valid(13, action));
        assert!(!engine.is_move_valid(12, action));
    }
}

#[test]
fn opening_moves() {
    let engine = Engine::new();
    let mut legal = Vec::new();
    for tile in 0u8..32 {
        for action in legal_actions(&engine, tile) {
            legal.push((tile, action));
        }
    }
    assert_eq!(
        legal,
        vec![
            (17, Action::MoveNorthwest),
            (17, Action::MoveNortheast),
            (19, Action::MoveNorthwest),
            (19, Action::MoveNortheast),
            (21, Action::MoveNorthwest),
            (21, Action::MoveNortheast),
            (23, Action::MoveNorthwest),
        ]
    );
}

#[test]
fn step_onto_an_occupied_square_is_not_valid() {
    let engine = engine_for(board_with(&[(21, 2), (20, 1), (22, -1), (28, -2), (30, 2)]), false);
    // the two opposing pieces can be jumped over, nothing can be stepped on
    assert_eq!(legal_actions(&engine, 21), vec![Action::JumpNortheast, Action::JumpSouthwest]);
    let engine = engine_for(
        board_with(&[(21, 2), (20, 1), (22, -1), (28, -2), (30, 2), (15, -1), (27, 1)]),
        false,
    );
    assert_eq!(legal_actions(&engine, 21), Vec::<Action>::new());
}

#[test]
fn jump_needs_an_opposing_piece_and_an_empty_square() {
    // over an opposing man to an empty square
    let engine = engine_for(board_with(&[(21, 1), (20, -1)]), false);
    assert!(engine.is_move_valid(21, &Action::JumpNorthwest));
    // over an opposing king as well
    let engine = engine_for(board_with(&[(21, 1), (20, -2)]), false);
    assert!(engine.is_move_valid(21, &Action::JumpNorthwest));
    // not over an empty square
    let engine = engine_for(board_with(&[(21, 1)]), false);
    assert!(!engine.is_move_valid(21, &Action::JumpNorthwest));
    // not over a piece of one's own
    let engine = engine_for(board_with(&[(21, 1), (20, 1)]), false);
    assert!(!engine.is_move_valid(21, &Action::JumpNorthwest));
    // not to an occupied square
    let engine = engine_for(board_with(&[(21, 1), (20, -1), (11, -1)]), false);
    assert!(!engine.is_move_valid(21, &Action::JumpNorthwest));
    let engine = engine_for(board_with(&[(21, 1), (20, -1), (11, 1)]), false);
    assert!(!engine.is_move_valid(21, &Action::JumpNorthwest));
}

#[test]
fn jump_is_valid_exactly_when_the_rule_says() {
    // every tile, every direction, every filling of the two squares
    let jumps = [
        (Action::JumpNorthwest, Action::MoveNorthwest),
        (Action::JumpNortheast, Action::MoveNortheast),
        (Action::JumpSouthwest, Action::MoveSouthwest),
        (Action::JumpSoutheast, Action::MoveSoutheast),
    ];
    for tile in 0u8..32 {
        for (jump, step) in jumps.iter() {
            let (rows, cols) = steps(jump);
            let row = row_of(tile) + rows;
            let col = col_of(tile) + cols;
            let on_board = (0..8).contains(&row) && (0..8).contains(&col);
            if !on_board {
                let engine = engine_for(board_with(&[(tile as usize, 2)]), false);
                assert!(!engine.is_move_valid(tile, jump));
                continue;
            }
            let over = Engine::action_on_tile(tile, step) as usize;
            let target = Engine::action_on_tile(tile, jump) as usize;
            assert_eq!(Engine::action_on_tile(over as u8, step) as usize, target);
            for between in -2i8..=2 {
                for beyond in -2i8..=2 {
                    let engine = engine_for(
                        board_with(&[(tile as usize, 2), (over, between), (target, beyond)]),
                        false,
                    );
                    assert_eq!(engine.is_move_valid(tile, jump), between < 0 && beyond == 0);
                }
            }
        }
    }
}

#[test]
fn man_never_jumps_south() {
    let engine = engine_for(board_with(&[(10, 1), (9, -1), (11, -1)]), false);
    assert!(!engine.is_move_valid(10, &Action::JumpSouthwest));
    assert!(!engine.is_move_valid(10, &Action::JumpSoutheast));
    let engine = engine_for(board_with(&[(10, 2), (9, -1), (11, -1)]), false);
    assert!(engine.is_move_valid(10, &Action::JumpSouthwest));
    assert!(engine.is_move_valid(10, &Action::JumpSoutheast));
}

#[test]
fn validity_is_judged_on_the_board_of_the_side_to_move() {
    let own = board_with(&[(21, 1), (20, -1)]);
    let black = engine_for(own, false);
    assert!(black.is_move_valid(21, &Action::JumpNorthwest));
    assert_eq!(black.get_board(), &own);
    assert_eq!(black.peek_black(), &own);
    let red = engine_for(own, true);
    assert!(red.is_move_valid(21, &Action::JumpNorthwest));
    assert_eq!(red.get_board(), &own);
    assert_eq!(red.peek_red(), &own);
    // the same boards with the turn on the other side
    let waiting = Engine { current_player: true, ..engine_for(own, false) };
    assert!(!waiting.is_move_valid(21, &Action::JumpNorthwest));
    assert_eq!(
        legal_actions(&waiting, 11),
        vec![Action::MoveNortheast, Action::JumpNorthwest]
    );
}
