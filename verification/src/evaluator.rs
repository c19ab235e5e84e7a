//! The static position scorer: material, piece-square tables for pawns,
//! knights and bishops (shared by both sides through a coordinate
//! reflection), and structural terms for doubled pawns, rooks on open or
//! semi-open files, and the bishop pair.

use vstd::prelude::*;
use crate::board::{Board, BoardModel};
use crate::color::{Color, spec_opponent};
use crate::piece_type::PieceType;
use crate::position::{Position, spec_valid};

verus! {

pub const PAWN_POS: [[i16; 8]; 8] = [
    [106, 106, 107, 108, 108, 107, 106, 106],
    [105, 105, 106, 107, 107, 106, 105, 105],
    [104, 104, 105, 106, 106, 105, 104, 104],
    [103, 103, 104, 105, 105, 104, 103, 103],
    [102, 102, 103, 104, 104, 103, 102, 102],
    [101, 101, 102, 103, 103, 102, 101, 101],
    [100, 100, 100, 100, 100, 100, 100, 100],
    [100, 100, 100, 100, 100, 100, 100, 100],
];

pub const KNIGHT_POS: [[i16; 8]; 8] = [
    [300, 300, 300, 300, 300, 300, 300, 300],
    [300, 300, 300, 300, 300, 300, 300, 300],
    [300, 300, 300, 300, 300, 300, 300, 300],
    [300, 300, 330, 330, 330, 330, 300, 300],
    [300, 300, 320, 320, 320, 320, 300, 300],
    [300, 300, 310, 310, 310, 310, 300, 300],
    [300, 300, 300, 300, 300, 300, 300, 300],
    [300, 300, 300, 300, 300, 300, 300, 300],
];

pub const BISHOP_POS: [[i16; 8]; 8] = [
    [300, 300, 300, 300, 300, 300, 300, 300],
    [300, 300, 300, 300, 300, 300, 300, 300],
    [300, 300, 300, 300, 300, 300, 300, 300],
    [300, 313, 300, 300, 300, 300, 313, 300],
    [300, 310, 312, 300, 300, 312, 310, 300],
    [310, 300, 310, 311, 311, 310, 300, 310],
    [300, 310, 300, 300, 300, 300, 310, 300],
    [300, 300, 300, 300, 300, 300, 300, 300],
];

/// The table entry a piece of this colour reads for a square: Black reads
/// the table as laid out, White through the point reflection of the
/// board, so one table serves both sides.
pub open spec fn spec_pos_points(pos: Position, color: Color, grid: [[i16; 8]; 8]) -> int {
    if color == Color::Black {
        grid[pos.y as int][pos.x as int] as int
    } else {
        grid[7 - pos.y as int][7 - pos.x as int] as int
    }
}

/// Looks a square up in a piece-square table, as `spec_pos_points`
/// describes.
pub fn get_pos_points(pos: Position, color: Color, grid: [[i16; 8]; 8]) -> (r: i16)
    requires
        spec_valid(pos),
    ensures
        r as int == spec_pos_points(pos, color, grid),
{
    let mp: Position = if color == Color::Black {
        pos
    } else {
        Position { x: 7 - pos.x, y: 7 - pos.y }
    };
    grid[mp.y as usize][mp.x as usize]
}

/// A piece's bare material worth in centipawns.
pub open spec fn spec_piece_points(t: PieceType) -> int {
    match t {
        PieceType::Bishop => 300,
        PieceType::Knight => 300,
        PieceType::Rook => 500,
        PieceType::King => 0,
        PieceType::Queen => 900,
        PieceType::Pawn => 100,
        PieceType::Empty => 0,
    }
}

/// A piece's worth with the positional tables applied: pawns, knights and
/// bishops read their tables, the rest keep their material value.
pub open spec fn spec_early_piece_points(t: PieceType, pos: Position, c: Color) -> int {
    match t {
        PieceType::Bishop => spec_pos_points(pos, c, BISHOP_POS),
        PieceType::Knight => spec_pos_points(pos, c, KNIGHT_POS),
        PieceType::Rook => 500,
        PieceType::King => 0,
        PieceType::Queen => 900,
        PieceType::Pawn => spec_pos_points(pos, c, PAWN_POS),
        PieceType::Empty => 0,
    }
}

/// The bare material worth of a piece, as `spec_piece_points` describes.
pub fn piece_points(piece: PieceType, pos: Position, color: Color) -> (r: i16)
    ensures
        r as int == spec_piece_points(piece),
{
    match piece {
        PieceType::Bishop => 300,
        PieceType::Knight => 300,
        PieceType::Rook => 500,
        PieceType::King => 0,
        PieceType::Queen => 900,
        PieceType::Pawn => 100,
        PieceType::Empty => 0,
    }
}

/// A piece's worth under the opening tables, as
/// `spec_early_piece_points` describes.
pub fn early_piece_points(piece: PieceType, pos: Position, color: Color) -> (r: i16)
    requires
        spec_valid(pos),
    ensures
        r as int == spec_early_piece_points(piece, pos, color),
{
    match piece {
        PieceType::Bishop => get_pos_points(pos, color, BISHOP_POS),
        PieceType::Knight => get_pos_points(pos, color, KNIGHT_POS),
        PieceType::Rook => 500,
        PieceType::King => 0,
        PieceType::Queen => 900,
        PieceType::Pawn => get_pos_points(pos, color, PAWN_POS),
        PieceType::Empty => 0,
    }
}

/// A piece's worth under the endgame tables; the source keeps one table
/// set, so this reads the same tables as `early_piece_points`.
pub fn late_piece_points(piece: PieceType, pos: Position, color: Color) -> (r: i16)
    requires
        spec_valid(pos),
    ensures
        r as int == spec_early_piece_points(piece, pos, color),
{
    match piece {
        PieceType::Bishop => get_pos_points(pos, color, BISHOP_POS),
        PieceType::Knight => get_pos_points(pos, color, KNIGHT_POS),
        PieceType::Rook => 500,
        PieceType::King => 0,
        PieceType::Queen => 900,
        PieceType::Pawn => get_pos_points(pos, color, PAWN_POS),
        PieceType::Empty => 0,
    }
}

/// The bare material the side owns on the squares from (x, y) on,
/// file-major.
pub open spec fn spec_points_from(m: BoardModel, c: Color, x: int, y: int) -> int
    decreases 8 - x, 8 - y,
    when 0 <= x <= 8 && 0 <= y <= 8
{
    if x >= 8 {
        0
    } else if y >= 8 {
        spec_points_from(m, c, x + 1, 0)
    } else {
        (if m.at(x, y).color == c {
            spec_piece_points(m.at(x, y).piece_type)
        } else {
            0
        }) + spec_points_from(m, c, x, y + 1)
    }
}

/// The side's bare material over the whole board.
pub open spec fn spec_points(m: BoardModel, c: Color) -> int {
    spec_points_from(m, c, 0, 0)
}

/// The side's table-adjusted material on the squares from (x, y) on.
pub open spec fn spec_early_points_from(m: BoardModel, c: Color, x: int, y: int) -> int
    decreases 8 - x, 8 - y,
    when 0 <= x <= 8 && 0 <= y <= 8
{
    if x >= 8 {
        0
    } else if y >= 8 {
        spec_early_points_from(m, c, x + 1, 0)
    } else {
        (if m.at(x, y).color == c {
            spec_early_piece_points(
                m.at(x, y).piece_type,
                Position { x: x as isize, y: y as isize },
                c,
            )
        } else {
            0
        }) + spec_early_points_from(m, c, x, y + 1)
    }
}

/// The side's table-adjusted material over the whole board.
pub open spec fn spec_early_points(m: BoardModel, c: Color) -> int {
    spec_early_points_from(m, c, 0, 0)
}

/// How many squares (x, y) and those after it cover, file-major.
pub open spec fn squares_left(x: int, y: int) -> int {
    if x >= 8 {
        0
    } else {
        (8 - x) * 8 - y
    }
}

/// No piece is worth more than 900, and none less than 0: a partial
/// material sum lies between 0 and 900 per square left.
pub proof fn lemma_points_from_bound(m: BoardModel, c: Color, x: int, y: int)
    requires
        0 <= x <= 8,
        0 <= y <= 8,
    ensures
        0 <= spec_points_from(m, c, x, y) <= squares_left(x, y) * 900,
    decreases 8 - x, 8 - y,
{
    if x >= 8 {
    } else if y >= 8 {
        lemma_points_from_bound(m, c, x + 1, 0);
    } else {
        lemma_points_from_bound(m, c, x, y + 1);
    }
}

/// The table-adjusted worth of a square also lies between 0 and 900: the
/// tables keep pawns under 110, knights under 340 and bishops under 320.
pub proof fn lemma_early_points_from_bound(m: BoardModel, c: Color, x: int, y: int)
    requires
        0 <= x <= 8,
        0 <= y <= 8,
    ensures
        0 <= spec_early_points_from(m, c, x, y) <= squares_left(x, y) * 900,
    decreases 8 - x, 8 - y,
{
    if x >= 8 {
    } else if y >= 8 {
        lemma_early_points_from_bound(m, c, x + 1, 0);
    } else {
        lemma_early_points_from_bound(m, c, x, y + 1);
    }
}

/// Sums the side's bare material, as `spec_points` describes.
pub fn points(board: Board, color: Color) -> (r: i32)
    ensures
        r as int == spec_points(board@, color),
{
    let mut acc: i32 = 0;
    let mut i: usize = 0;
    proof {
        lemma_points_from_bound(board@, color, 0, 0);
    }
    while i < 8
        invariant
            i <= 8,
            spec_points(board@, color) == acc + spec_points_from(board@, color, i as int, 0),
            0 <= spec_points(board@, color) <= 57600,
            0 <= spec_points_from(board@, color, i as int, 0) <= 57600,
        decreases 8 - i,
    {
        let mut l: usize = 0;
        while l < 8
            invariant
                i < 8,
                l <= 8,
                spec_points(board@, color) == acc + spec_points_from(
                    board@,
                    color,
                    i as int,
                    l as int,
                ),
                0 <= spec_points(board@, color) <= 57600,
                0 <= spec_points_from(board@, color, i as int, l as int) <= 57600,
            decreases 8 - l,
        {
            let pos = Position { x: i as isize, y: l as isize };
            let piece = board.get_piece(pos);
            proof {
                lemma_points_from_bound(board@, color, i as int, l as int + 1);
            }
            if piece.color == color {
                acc = acc + piece_points(piece.piece_type, pos, color) as i32;
            }
            l = l + 1;
        }
        proof {
            lemma_points_from_bound(board@, color, i as int + 1, 0);
        }
        i = i + 1;
    }
    acc
}

/// Sums the side's table-adjusted material, as `spec_early_points`
/// describes.
pub fn early_points(board: Board, color: Color) -> (r: i32)
    ensures
        r as int == spec_early_points(board@, color),
{
    let mut acc: i32 = 0;
    let mut i: usize = 0;
    proof {
        lemma_early_points_from_bound(board@, color, 0, 0);
    }
    while i < 8
        invariant
            i <= 8,
            spec_early_points(board@, color) == acc + spec_early_points_from(
                board@,
                color,
                i as int,
                0,
            ),
            0 <= spec_early_points(board@, color) <= 57600,
            0 <= spec_early_points_from(board@, color, i as int, 0) <= 57600,
        decreases 8 - i,
    {
        let mut l: usize = 0;
        while l < 8
            invariant
                i < 8,
                l <= 8,
                spec_early_points(board@, color) == acc + spec_early_points_from(
                    board@,
                    color,
                    i as int,
                    l as int,
                ),
                0 <= spec_early_points(board@, color) <= 57600,
                0 <= spec_early_points_from(board@, color, i as int, l as int) <= 57600,
            decreases 8 - l,
        {
            let pos = Position { x: i as isize, y: l as isize };
            let piece = board.get_piece(pos);
            proof {
                lemma_early_points_from_bound(board@, color, i as int, l as int + 1);
            }
            if piece.color == color {
                acc = acc + early_piece_points(piece.piece_type, pos, color) as i32;
            }
            l = l + 1;
        }
        proof {
            lemma_early_points_from_bound(board@, color, i as int + 1, 0);
        }
        i = i + 1;
    }
    acc
}

/// The side's pawns in file `x` from rank `y` up.
pub open spec fn col_pawns(m: BoardModel, c: Color, x: int, y: int) -> int
    decreases 8 - y,
    when 0 <= y <= 8
{
    if y >= 8 {
        0
    } else {
        (if m.at(x, y).piece_type == PieceType::Pawn && m.at(x, y).color == c {
            1int
        } else {
            0int
        }) + col_pawns(m, c, x, y + 1)
    }
}

/// The pawns of any other colour in file `x` from rank `y` up.
pub open spec fn col_opawns(m: BoardModel, c: Color, x: int, y: int) -> int
    decreases 8 - y,
    when 0 <= y <= 8
{
    if y >= 8 {
        0
    } else {
        (if m.at(x, y).piece_type == PieceType::Pawn && m.at(x, y).color != c {
            1int
        } else {
            0int
        }) + col_opawns(m, c, x, y + 1)
    }
}

/// The side's rooks in file `x` from rank `y` up.
pub open spec fn col_rooks(m: BoardModel, c: Color, x: int, y: int) -> int
    decreases 8 - y,
    when 0 <= y <= 8
{
    if y >= 8 {
        0
    } else {
        (if m.at(x, y).piece_type == PieceType::Rook && m.at(x, y).color == c {
            1int
        } else {
            0int
        }) + col_rooks(m, c, x, y + 1)
    }
}

/// The side's bishops in file `x` from rank `y` up.
pub open spec fn col_bishops(m: BoardModel, c: Color, x: int, y: int) -> int
    decreases 8 - y,
    when 0 <= y <= 8
{
    if y >= 8 {
        0
    } else {
        (if m.at(x, y).piece_type == PieceType::Bishop && m.at(x, y).color == c {
            1int
        } else {
            0int
        }) + col_bishops(m, c, x, y + 1)
    }
}

/// A column count tallies at most one per rank left.
pub proof fn lemma_col_counts_bound(m: BoardModel, c: Color, x: int, y: int)
    requires
        0 <= y <= 8,
    ensures
        0 <= col_pawns(m, c, x, y) <= 8 - y,
        0 <= col_opawns(m, c, x, y) <= 8 - y,
        0 <= col_rooks(m, c, x, y) <= 8 - y,
        0 <= col_bishops(m, c, x, y) <= 8 - y,
    decreases 8 - y,
{
    if y < 8 {
        lemma_col_counts_bound(m, c, x, y + 1);
    }
}

/// The side's doubled pawns over the files from `x` on: every own pawn
/// beyond the first on a file counts one, a file with at most one pawn
/// counts none.
pub open spec fn spec_doubled_from(m: BoardModel, c: Color, x: int) -> int
    decreases 8 - x,
    when 0 <= x <= 8
{
    if x >= 8 {
        0
    } else {
        (if col_pawns(m, c, x, 0) > 1 {
            col_pawns(m, c, x, 0) - 1
        } else {
            0
        }) + spec_doubled_from(m, c, x + 1)
    }
}

/// The side's rooks on open files (no pawn of either colour) from file
/// `x` on.
pub open spec fn spec_rooks_open_from(m: BoardModel, c: Color, x: int) -> int
    decreases 8 - x,
    when 0 <= x <= 8
{
    if x >= 8 {
        0
    } else {
        (if col_pawns(m, c, x, 0) + col_opawns(m, c, x, 0) == 0 {
            col_rooks(m, c, x, 0)
        } else {
            0
        }) + spec_rooks_open_from(m, c, x + 1)
    }
}

/// The side's rooks on semi-open files (exactly one pawn of either
/// colour) from file `x` on.
pub open spec fn spec_rooks_semi_from(m: BoardModel, c: Color, x: int) -> int
    decreases 8 - x,
    when 0 <= x <= 8
{
    if x >= 8 {
        0
    } else {
        (if col_pawns(m, c, x, 0) + col_opawns(m, c, x, 0) == 1 {
            col_rooks(m, c, x, 0)
        } else {
            0
        }) + spec_rooks_semi_from(m, c, x + 1)
    }
}

/// The side's bishops over the files from `x` on.
pub open spec fn spec_bishops_from(m: BoardModel, c: Color, x: int) -> int
    decreases 8 - x,
    when 0 <= x <= 8
{
    if x >= 8 {
        0
    } else {
        col_bishops(m, c, x, 0) + spec_bishops_from(m, c, x + 1)
    }
}

pub open spec fn spec_doubled_pawns(m: BoardModel, c: Color) -> int {
    spec_doubled_from(m, c, 0)
}

pub open spec fn spec_rooks_open(m: BoardModel, c: Color) -> int {
    spec_rooks_open_from(m, c, 0)
}

pub open spec fn spec_rooks_semi(m: BoardModel, c: Color) -> int {
    spec_rooks_semi_from(m, c, 0)
}

/// The side holds both bishops.
pub open spec fn spec_bishop_pair(m: BoardModel, c: Color) -> bool {
    spec_bishops_from(m, c, 0) > 1
}

/// A file-sum tallies at most eight per file left.
pub proof fn lemma_file_sums_bound(m: BoardModel, c: Color, x: int)
    requires
        0 <= x <= 8,
    ensures
        0 <= spec_doubled_from(m, c, x) <= (8 - x) * 8,
        0 <= spec_rooks_open_from(m, c, x) <= (8 - x) * 8,
        0 <= spec_rooks_semi_from(m, c, x) <= (8 - x) * 8,
        0 <= spec_bishops_from(m, c, x) <= (8 - x) * 8,
    decreases 8 - x,
{
    if x < 8 {
        lemma_col_counts_bound(m, c, x, 0);
        lemma_file_sums_bound(m, c, x + 1);
    }
}

/// Tallies, per file, the side's doubled pawns, its rooks on open and on
/// semi-open files, and whether it holds the bishop pair, as the four
/// `spec_` counterparts describe.
pub fn doubled_pawns(board: Board, color: Color) -> (r: (i16, i16, i16, bool))
    ensures
        r.0 as int == spec_doubled_pawns(board@, color),
        r.1 as int == spec_rooks_open(board@, color),
        r.2 as int == spec_rooks_semi(board@, color),
        r.3 == spec_bishop_pair(board@, color),
{
    let mut bishops: i16 = 0;
    let mut total_doubled_pawns: i16 = 0;
    let mut total_rooks_open: i16 = 0;
    let mut total_rooks_semi: i16 = 0;
    let mut col: usize = 0;
    proof {
        lemma_file_sums_bound(board@, color, 0);
    }
    while col < 8
        invariant
            col <= 8,
            spec_doubled_pawns(board@, color) == total_doubled_pawns + spec_doubled_from(
                board@,
                color,
                col as int,
            ),
            spec_rooks_open(board@, color) == total_rooks_open + spec_rooks_open_from(
                board@,
                color,
                col as int,
            ),
            spec_rooks_semi(board@, color) == total_rooks_semi + spec_rooks_semi_from(
                board@,
                color,
                col as int,
            ),
            spec_bishops_from(board@, color, 0) == bishops + spec_bishops_from(
                board@,
                color,
                col as int,
            ),
            0 <= total_doubled_pawns <= 64,
            0 <= total_rooks_open <= 64,
            0 <= total_rooks_semi <= 64,
            0 <= bishops <= 64,
        decreases 8 - col,
    {
        let mut pawns: i16 = 0;
        let mut opawns: i16 = 0;
        let mut rooks: i16 = 0;
        let mut col_bish: i16 = 0;
        let mut row: usize = 0;
        proof {
            lemma_col_counts_bound(board@, color, col as int, 0);
        }
        while row < 8
            invariant
                col < 8,
                row <= 8,
                col_pawns(board@, color, col as int, 0) == pawns + col_pawns(
                    board@,
                    color,
                    col as int,
                    row as int,
                ),
                col_opawns(board@, color, col as int, 0) == opawns + col_opawns(
                    board@,
                    color,
                    col as int,
                    row as int,
                ),
                col_rooks(board@, color, col as int, 0) == rooks + col_rooks(
                    board@,
                    color,
                    col as int,
                    row as int,
                ),
                col_bishops(board@, color, col as int, 0) == col_bish + col_bishops(
                    board@,
                    color,
                    col as int,
                    row as int,
                ),
                0 <= pawns <= 8,
                0 <= opawns <= 8,
                0 <= rooks <= 8,
                0 <= col_bish <= 8,
            decreases 8 - row,
        {
            let piece = board.get_piece(Position { x: col as isize, y: row as isize });
            proof {
                lemma_col_counts_bound(board@, color, col as int, row as int + 1);
                lemma_col_counts_bound(board@, color, col as int, 0);
            }
            if piece.piece_type == PieceType::Pawn {
                if piece.color == color {
                    pawns = pawns + 1;
                } else {
                    opawns = opawns + 1;
                }
            } else if piece.piece_type == PieceType::Rook && piece.color == color {
                rooks = rooks + 1;
            } else if piece.piece_type == PieceType::Bishop && piece.color == color {
                col_bish = col_bish + 1;
            }
            row = row + 1;
        }
        proof {
            lemma_file_sums_bound(board@, color, col as int + 1);
            lemma_file_sums_bound(board@, color, 0);
        }
        total_doubled_pawns = total_doubled_pawns + (if pawns > 1 {
            pawns - 1
        } else {
            0
        });
        if pawns + opawns == 1 {
            total_rooks_semi = total_rooks_semi + rooks;
        } else if pawns + opawns == 0 {
            total_rooks_open = total_rooks_open + rooks;
        }
        bishops = bishops + col_bish;
        col = col + 1;
    }
    (total_doubled_pawns, total_rooks_open, total_rooks_semi, bishops > 1)
}

/// Clamping to the symmetric range a 16-bit score can carry.
pub open spec fn spec_clamp(v: int) -> int {
    if v > 32767 {
        32767
    } else if v < -32767 {
        -32767
    } else {
        v
    }
}

/// The signed centipawn worth of the position from one side's point of
/// view: own material, each piece read through its positional table,
/// minus the opponent's; 3 against each own doubled pawn beyond the
/// first per file (and 3 for each of the opponent's); 40 per rook on an
/// open file and 10 per rook on a semi-open file; and 10 for holding the
/// bishop pair, all taken as differences between the sides.
pub open spec fn spec_evaluate(m: BoardModel, c: Color) -> int {
    let o = spec_opponent(c);
    (spec_early_points(m, c) - spec_early_points(m, o)) + 3 * (spec_doubled_pawns(m, o) - spec_doubled_pawns(
        m,
        c,
    )) + 40 * (spec_rooks_open(m, c) - spec_rooks_open(m, o)) + 10 * (spec_rooks_semi(m, c)
        - spec_rooks_semi(m, o)) + (if spec_bishop_pair(m, c) {
        10int
    } else {
        0int
    }) - (if spec_bishop_pair(m, o) {
        10int
    } else {
        0int
    })
}

/// The evaluation is antisymmetric in the sides: the opponent's view of
/// a position is the exact negation of one's own (the empty colour is
/// its own opponent and scores zero).
pub proof fn lemma_evaluate_antisymmetric(m: BoardModel, c: Color)
    ensures
        spec_evaluate(m, spec_opponent(c)) == -spec_evaluate(m, c),
{
}

/// Scores the position for the given side, as `spec_evaluate` describes,
/// clamped into the symmetric 16-bit range (no reachable position comes
/// near the clamp).
pub fn evaluate(board: Board, color: Color) -> (r: i16)
    ensures
        r as int == spec_clamp(spec_evaluate(board@, color)),
{
    let op = color.opponent_color();
    let my_points = early_points(board, color);
    let op_points = early_points(board, op);
    let (my_double_p, my_rook_open, my_rook_semi, my_bishops) = doubled_pawns(board, color);
    let (op_double_p, op_rook_open, op_rook_semi, op_bishops) = doubled_pawns(board, op);
    proof {
        lemma_early_points_from_bound(board@, color, 0, 0);
        lemma_early_points_from_bound(board@, op, 0, 0);
        lemma_file_sums_bound(board@, color, 0);
        lemma_file_sums_bound(board@, op, 0);
    }
    let mut score: i32 = my_points - op_points;
    score = score + ((op_double_p - my_double_p) as i32) * 3;
    score = score + ((my_rook_open - op_rook_open) as i32) * 40;
    score = score + ((my_rook_semi - op_rook_semi) as i32) * 10;
    score = score + (if my_bishops {
        10
    } else {
        0
    });
    score = score - (if op_bishops {
        10
    } else {
        0
    });
    if score > 32767 {
        32767
    } else if score < -32767 {
        -32767
    } else {
        score as i16
    }
}

/// The endgame material sum; with one shared table set it coincides with
/// `early_points`.
pub fn late_points(board: Board, color: Color) -> (r: i32)
    ensures
        r as int == spec_early_points(board@, color),
{
    let mut acc: i32 = 0;
    let mut i: usize = 0;
    proof {
        lemma_early_points_from_bound(board@, color, 0, 0);
    }
    while i < 8
        invariant
            i <= 8,
            spec_early_points(board@, color) == acc + spec_early_points_from(
                board@,
                color,
                i as int,
                0,
            ),
            0 <= spec_early_points(board@, color) <= 57600,
            0 <= spec_early_points_from(board@, color, i as int, 0) <= 57600,
        decreases 8 - i,
    {
        let mut l: usize = 0;
        while l < 8
            invariant
                i < 8,
                l <= 8,
                spec_early_points(board@, color) == acc + spec_early_points_from(
                    board@,
                    color,
                    i as int,
                    l as int,
                ),
                0 <= spec_early_points(board@, color) <= 57600,
                0 <= spec_early_points_from(board@, color, i as int, l as int) <= 57600,
            decreases 8 - l,
        {
            let pos = Position { x: i as isize, y: l as isize };
            let piece = board.get_piece(pos);
            proof {
                lemma_early_points_from_bound(board@, color, i as int, l as int + 1);
            }
            if piece.color == color {
                acc = acc + late_piece_points(piece.piece_type, pos, color) as i32;
            }
            l = l + 1;
        }
        proof {
            lemma_early_points_from_bound(board@, color, i as int + 1, 0);
        }
        i = i + 1;
    }
    acc
}

} // verus!
