//! A piece is a kind together with the colour it belongs to.

use vstd::prelude::*;
use crate::color::Color;
use crate::piece_type::PieceType;

verus! {

#[derive(PartialEq, Eq, Structural, Debug, Copy, Clone)]
pub struct Piece {
    pub piece_type: PieceType,
    pub color: Color,
}

/// The piece standing on an unoccupied square.
pub open spec fn empty_piece() -> Piece {
    Piece { piece_type: PieceType::Empty, color: Color::Empty }
}

impl Piece {
    /// The one-letter FEN tag: upper case for White, lower case for Black,
    /// empty for an unoccupied square.
    pub fn fen_string(&self) -> (r: String)
        ensures
            self.piece_type == PieceType::Bishop && self.color == Color::White ==> r@ == "B"@,
            self.piece_type == PieceType::Bishop && self.color != Color::White ==> r@ == "b"@,
            self.piece_type == PieceType::Knight && self.color == Color::White ==> r@ == "N"@,
            self.piece_type == PieceType::Knight && self.color != Color::White ==> r@ == "n"@,
            self.piece_type == PieceType::Rook && self.color == Color::White ==> r@ == "R"@,
            self.piece_type == PieceType::Rook && self.color != Color::White ==> r@ == "r"@,
            self.piece_type == PieceType::King && self.color == Color::White ==> r@ == "K"@,
            self.piece_type == PieceType::King && self.color != Color::White ==> r@ == "k"@,
            self.piece_type == PieceType::Queen && self.color == Color::White ==> r@ == "Q"@,
            self.piece_type == PieceType::Queen && self.color != Color::White ==> r@ == "q"@,
            self.piece_type == PieceType::Pawn && self.color == Color::White ==> r@ == "P"@,
            self.piece_type == PieceType::Pawn && self.color != Color::White ==> r@ == "p"@,
            self.piece_type == PieceType::Empty ==> r@ == ""@,
    {
        match self.piece_type {
            PieceType::Bishop => {
                if self.color == Color::White {
                    "B".to_owned()
                } else {
                    "b".to_owned()
                }
            },
            PieceType::Knight => {
                if self.color == Color::White {
                    "N".to_owned()
                } else {
                    "n".to_owned()
                }
            },
            PieceType::Rook => {
                if self.color == Color::White {
                    "R".to_owned()
                } else {
                    "r".to_owned()
                }
            },
            PieceType::King => {
                if self.color == Color::White {
                    "K".to_owned()
                } else {
                    "k".to_owned()
                }
            },
            PieceType::Queen => {
                if self.color == Color::White {
                    "Q".to_owned()
                } else {
                    "q".to_owned()
                }
            },
            PieceType::Pawn => {
                if self.color == Color::White {
                    "P".to_owned()
                } else {
                    "p".to_owned()
                }
            },
            PieceType::Empty => "".to_owned(),
        }
    }
}

} // verus!
