//! The one fixed starting position: the standard piece placement, White
//! to move, all four castling rights held, no en-passant target.

use vstd::prelude::*;
use crate::board::{Board, kings_on_board, kings_placed};
use crate::color::Color;
use crate::piece::Piece;
use crate::piece_type::PieceType;
use crate::position::Position;

verus! {

/// The piece the standard starting position puts on file `x`, rank `y`:
/// White's back rank on rank 0 and pawns on rank 1, mirrored for Black
/// on ranks 7 and 6, all else empty.
pub open spec fn starting_piece(x: int, y: int) -> Piece {
    let back = if x == 0 || x == 7 {
        PieceType::Rook
    } else if x == 1 || x == 6 {
        PieceType::Knight
    } else if x == 2 || x == 5 {
        PieceType::Bishop
    } else if x == 3 {
        PieceType::Queen
    } else {
        PieceType::King
    };
    if y == 0 {
        Piece { piece_type: back, color: Color::White }
    } else if y == 1 {
        Piece { piece_type: PieceType::Pawn, color: Color::White }
    } else if y == 6 {
        Piece { piece_type: PieceType::Pawn, color: Color::Black }
    } else if y == 7 {
        Piece { piece_type: back, color: Color::Black }
    } else {
        Piece { piece_type: PieceType::Empty, color: Color::Empty }
    }
}

/// Builds the standard starting board: every square as `starting_piece`
/// places it, White to move, all castling rights held, the kings cached
/// on e1 and e8, and no en-passant target.
pub fn make_board() -> (r: Board)
    ensures
        forall|x: int, y: int| 0 <= x < 8 && 0 <= y < 8 ==> r@.at(x, y) == starting_piece(x, y),
        r@.turn == Color::White,
        r@.white_kingside,
        r@.black_kingside,
        r@.white_queenside,
        r@.black_queenside,
        r@.white_king == (Position { x: 4, y: 0 }),
        r@.black_king == (Position { x: 4, y: 7 }),
        r@.en_pessant == (Position { x: -1isize, y: -1isize }),
        kings_on_board(r@),
        kings_placed(r@),
{
    let w_pawn = Piece { piece_type: PieceType::Pawn, color: Color::White };
    let b_pawn = Piece { piece_type: PieceType::Pawn, color: Color::Black };
    let blank = Piece { piece_type: PieceType::Empty, color: Color::Empty };
    let r = Board {
        board: [
            [
                Piece { piece_type: PieceType::Rook, color: Color::White },
                Piece { piece_type: PieceType::Knight, color: Color::White },
                Piece { piece_type: PieceType::Bishop, color: Color::White },
                Piece { piece_type: PieceType::Queen, color: Color::White },
                Piece { piece_type: PieceType::King, color: Color::White },
                Piece { piece_type: PieceType::Bishop, color: Color::White },
                Piece { piece_type: PieceType::Knight, color: Color::White },
                Piece { piece_type: PieceType::Rook, color: Color::White },
            ],
            [w_pawn, w_pawn, w_pawn, w_pawn, w_pawn, w_pawn, w_pawn, w_pawn],
            [blank, blank, blank, blank, blank, blank, blank, blank],
            [blank, blank, blank, blank, blank, blank, blank, blank],
            [blank, blank, blank, blank, blank, blank, blank, blank],
            [blank, blank, blank, blank, blank, blank, blank, blank],
            [b_pawn, b_pawn, b_pawn, b_pawn, b_pawn, b_pawn, b_pawn, b_pawn],
            [
                Piece { piece_type: PieceType::Rook, color: Color::Black },
                Piece { piece_type: PieceType::Knight, color: Color::Black },
                Piece { piece_type: PieceType::Bishop, color: Color::Black },
                Piece { piece_type: PieceType::Queen, color: Color::Black },
                Piece { piece_type: PieceType::King, color: Color::Black },
                Piece { piece_type: PieceType::Bishop, color: Color::Black },
                Piece { piece_type: PieceType::Knight, color: Color::Black },
                Piece { piece_type: PieceType::Rook, color: Color::Black },
            ],
        ],
        turn: Color::White,
        white_kingside: true,
        black_kingside: true,
        white_queenside: true,
        black_queenside: true,
        black_king: Position { y: 7, x: 4 },
        white_king: Position { y: 0, x: 4 },
        en_pessant: Position { x: -1, y: -1 },
    };
    proof {
        assert forall|x: int, y: int| 0 <= x < 8 && 0 <= y < 8 implies r@.at(x, y)
            == starting_piece(x, y) by {
            assert(r@.at(x, y) == r.board[y][x]);
        }
    }
    r
}

} // verus!
