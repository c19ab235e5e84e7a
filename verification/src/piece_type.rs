//! The closed set of piece kinds. `Empty` marks an unoccupied square.

use vstd::prelude::*;

verus! {

#[derive(PartialEq, Eq, Structural, Debug, Copy, Clone)]
pub enum PieceType {
    Pawn,
    Rook,
    Knight,
    Bishop,
    King,
    Queen,
    Empty,
}

} // verus!
