//! Rules engine for checkers on the 32 dark squares of an 8x8 board.
//!
//! The crate validates single steps and capturing jumps, resolves forced
//! capture chains, crowns men that reach the far row, and detects a win.
//! Every executable function carries a contract over a mathematical model
//! of the game ([`position::Position`]), and the rules of the game are
//! stated once, as specification functions on that model.
//!
//! * [`tiles`]: the packed tile numbering and its geometry.
//! * [`counting`]: how many pieces a board holds.
//! * [`position`]: the model of a game state and of one turn.
//! * [`invariants`]: what each step of a turn keeps true.
//! * [`laws`]: theorems about the rules.
//! * [`engine`]: the executable engine.
//! * [`errors`]: the error that the engine reports.

pub mod counting;
pub mod engine;
pub mod errors;
pub mod invariants;
pub mod laws;
pub mod position;
pub mod tiles;
