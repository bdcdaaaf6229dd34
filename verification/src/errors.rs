//! Errors reported by the engine.

use vstd::prelude::*;

verus! {

/// Why the engine refused a request.
#[derive(Debug, Clone, Copy, PartialEq, Eq, Structural)]
pub enum CheckersError {
    /// The tile and action do not make a legal move for the side to move.
    IllegalMove,
}

} // verus!
