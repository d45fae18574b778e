//! Why a move text, a move, or a request for a move was refused.
use vstd::prelude::*;
use crate::board::Player;

verus! {

#[derive(Clone, Copy, Debug, PartialEq, Eq, Structural)]
pub enum GameError {
    /// The text is not one or two coordinates of the form `a1`..`c3`.
    MalformedCoordinate,
    /// The target cell already holds a piece.
    CellOccupied { row: usize, col: usize },
    /// The player has placed all three pieces.
    NoPiecesRemaining { player: Player },
    /// A relocation starts from an empty cell.
    NoPieceToMove { row: usize, col: usize },
    /// A relocation starts from a piece of the other player.
    NotOwnedByPlayer { row: usize, col: usize, player: Player },
    /// The player must place every piece before moving one.
    PiecesStillUnplaced { player: Player },
    /// The two cells of a relocation are not linked by a line.
    NotAdjacent { row: usize, col: usize, new_row: usize, new_col: usize },
    /// The player has no legal move at all.
    NoLegalMove,
}

} // verus!
