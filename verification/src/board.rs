//! The game state: an 8×8 grid of pieces (rank-major, `board[rank][file]`),
//! the four castling rights, cached king squares, and the en-passant target
//! (the sentinel square {-1,-1} meaning "none").
//!
//! Every mutation and query is specified against `BoardModel`, the
//! mathematical image of a board: the grid as a sequence of rank rows
//! together with the side state, reached through `@`.

use vstd::prelude::*;
use crate::color::{Color, spec_opponent};
use crate::piece::{Piece, empty_piece};
use crate::piece_type::PieceType;
use crate::position::{Position, spec_valid};
use crate::move_::{Move, spec_kingside_castle, spec_queenside_castle};

verus! {

#[derive(Copy, Clone)]
pub struct Board {
    pub board: [[Piece; 8]; 8],
    pub turn: Color,
    pub white_kingside: bool,
    pub black_kingside: bool,
    pub white_queenside: bool,
    pub black_queenside: bool,
    pub black_king: Position,
    pub white_king: Position,
    pub en_pessant: Position,
}

/// The mathematical image of a board.
#[verifier::ext_equal]
pub ghost struct BoardModel {
    pub grid: Seq<Seq<Piece>>,
    pub turn: Color,
    pub white_kingside: bool,
    pub black_kingside: bool,
    pub white_queenside: bool,
    pub black_queenside: bool,
    pub black_king: Position,
    pub white_king: Position,
    pub en_pessant: Position,
}

impl View for Board {
    type V = BoardModel;

    open spec fn view(&self) -> BoardModel {
        BoardModel {
            grid: Seq::new(8, |y: int| Seq::new(8, |x: int| self.board[y][x])),
            turn: self.turn,
            white_kingside: self.white_kingside,
            black_kingside: self.black_kingside,
            white_queenside: self.white_queenside,
            black_queenside: self.black_queenside,
            black_king: self.black_king,
            white_king: self.white_king,
            en_pessant: self.en_pessant,
        }
    }
}

impl BoardModel {
    /// The piece standing on file `x`, rank `y`.
    pub open spec fn at(self, x: int, y: int) -> Piece {
        self.grid[y][x]
    }

    /// The model with the piece on file `x`, rank `y` replaced.
    pub open spec fn set_at(self, x: int, y: int, p: Piece) -> BoardModel {
        BoardModel { grid: self.grid.update(y, self.grid[y].update(x, p)), ..self }
    }

    /// The cached king square of the given side (Black's doubles as the
    /// answer for the empty colour, which owns no king).
    pub open spec fn king_of(self, c: Color) -> Position {
        if c == Color::White {
            self.white_king
        } else {
            self.black_king
        }
    }
}

/// Both cached king squares name squares on the board; every query that
/// looks a king up assumes this much of its argument.
pub open spec fn kings_on_board(m: BoardModel) -> bool {
    spec_valid(m.white_king) && spec_valid(m.black_king)
}

/// The grid is a true 8×8 board: eight rank rows of eight squares.
/// Every `Board` view satisfies this by construction.
pub open spec fn grid_wf(m: BoardModel) -> bool {
    &&& m.grid.len() == 8
    &&& forall|y: int| 0 <= y < 8 ==> (#[trigger] m.grid[y]).len() == 8
}

/// Replacing one square changes that square and nothing else.
pub broadcast proof fn lemma_set_at_at(m: BoardModel, x: int, y: int, p: Piece, a: int, b: int)
    requires
        grid_wf(m),
        0 <= x < 8,
        0 <= y < 8,
        0 <= a < 8,
        0 <= b < 8,
    ensures
        #[trigger] m.set_at(x, y, p).at(a, b) == (if a == x && b == y {
            p
        } else {
            m.at(a, b)
        }),
{
}

/// Replacing one square keeps the grid a true 8×8 board.
pub broadcast proof fn lemma_set_at_wf(m: BoardModel, x: int, y: int, p: Piece)
    requires
        grid_wf(m),
        0 <= x < 8,
        0 <= y < 8,
    ensures
        grid_wf(#[trigger] m.set_at(x, y, p)),
{
}

/// Each cached king square holds the king of its colour on the grid:
/// the invariant the caches promise, established by the starting board
/// and kept by every move of ordinary play.
pub open spec fn kings_placed(m: BoardModel) -> bool {
    &&& m.at(m.white_king.x as int, m.white_king.y as int) == (Piece {
        piece_type: PieceType::King,
        color: Color::White,
    })
    &&& m.at(m.black_king.x as int, m.black_king.y as int) == (Piece {
        piece_type: PieceType::King,
        color: Color::Black,
    })
}

/// The squares a move writes, besides relocating its own piece — the
/// destination, the en-passant victim's square, and the castle rook's
/// two squares — avoid every king the move does not itself carry, and
/// the carried king (if any) has a real colour. Every move of ordinary
/// play satisfies this: capturing a king is the one way to break it.
pub open spec fn spec_move_spares_kings(m: BoardModel, mv: Move) -> bool {
    let p = m.at(mv.start.x as int, mv.start.y as int);
    let white_mover = p.piece_type == PieceType::King && p.color == Color::White;
    let black_mover = p.piece_type == PieceType::King && p.color == Color::Black;
    &&& !(p.piece_type == PieceType::King && p.color == Color::Empty)
    &&& (!white_mover ==> mv.end != m.white_king)
    &&& (!black_mover ==> mv.end != m.black_king)
    &&& (spec_is_ep_capture(m, mv, p) ==> m.en_pessant != m.white_king && m.en_pessant
        != m.black_king)
    &&& ((p.piece_type == PieceType::King && spec_kingside_castle(mv)) ==> {
        let other = if p.color == Color::White {
            m.black_king
        } else {
            m.white_king
        };
        other != (Position { x: 5, y: mv.end.y }) && other != (Position { x: 7, y: mv.end.y })
    })
    &&& ((p.piece_type == PieceType::King && spec_queenside_castle(mv)) ==> {
        let other = if p.color == Color::White {
            m.black_king
        } else {
            m.white_king
        };
        other != (Position { x: 3, y: mv.end.y }) && other != (Position { x: 0, y: mv.end.y })
    })
}

/// The rank direction a pawn of this colour advances in.
pub open spec fn spec_pawn_dir(c: Color) -> int {
    match c {
        Color::White => 1,
        Color::Black => -1,
        Color::Empty => 0,
    }
}

/// The moving piece is a pawn stepping diagonally onto the square just
/// past a live en-passant target: the double-pushed pawn on the target
/// square is captured.
pub open spec fn spec_is_ep_capture(m: BoardModel, mv: Move, p: Piece) -> bool {
    &&& p.piece_type == PieceType::Pawn
    &&& spec_valid(m.en_pessant)
    &&& mv.start.x != mv.end.x
    &&& mv.end.x == m.en_pessant.x
    &&& mv.end.y == m.en_pessant.y + spec_pawn_dir(p.color)
}

/// The pawn reaches the farthest rank and is promoted in place to a queen.
pub open spec fn spec_is_promotion(mv: Move, p: Piece) -> bool {
    &&& p.piece_type == PieceType::Pawn
    &&& ((p.color == Color::White && mv.end.y == 7) || (p.color == Color::Black && mv.end.y == 0))
}

/// The pawn advances two ranks, arming the en-passant target.
pub open spec fn spec_is_double_push(mv: Move, p: Piece) -> bool {
    &&& p.piece_type == PieceType::Pawn
    &&& (mv.end.y - mv.start.y == 2 || mv.start.y - mv.end.y == 2)
}

/// What applying a move does to a board, step for step: nothing when the
/// source square is empty; otherwise an en-passant capture removes the
/// bypassed pawn, the target is cleared, the piece relocates (capturing by
/// overwrite), a pawn on the farthest rank becomes a queen, a double push
/// arms the target, a rook leaving its corner forfeits that castle, and a
/// king move relocates the castle rook where the move is a recognised
/// castle, recaches the king square and forfeits both of its castles.
/// Note that only a rook's own move (or its castle) forfeits a right: a
/// rook captured on its corner square forfeits nothing, so a later
/// castle on that side is still offered and will conjure a rook.
pub open spec fn spec_make_move(m: BoardModel, mv: Move) -> BoardModel {
    let p = m.at(mv.start.x as int, mv.start.y as int);
    if p.piece_type == PieceType::Empty {
        m
    } else {
        let m1 = if spec_is_ep_capture(m, mv, p) {
            m.set_at(m.en_pessant.x as int, m.en_pessant.y as int, empty_piece())
        } else {
            m
        };
        let m2 = BoardModel { en_pessant: Position { x: -1isize, y: -1isize }, ..m1 };
        let m3 = m2.set_at(mv.end.x as int, mv.end.y as int, p).set_at(
            mv.start.x as int,
            mv.start.y as int,
            empty_piece(),
        );
        let m4 = if spec_is_promotion(mv, p) {
            m3.set_at(
                mv.end.x as int,
                mv.end.y as int,
                Piece { piece_type: PieceType::Queen, color: p.color },
            )
        } else {
            m3
        };
        let m5 = if spec_is_double_push(mv, p) {
            BoardModel { en_pessant: mv.end, ..m4 }
        } else {
            m4
        };
        let m6 = if p.piece_type == PieceType::Rook {
            BoardModel {
                white_queenside: m5.white_queenside && !(mv.start.x == 0 && mv.start.y == 0),
                white_kingside: m5.white_kingside && !(mv.start.x == 7 && mv.start.y == 0),
                black_queenside: m5.black_queenside && !(mv.start.x == 0 && mv.start.y == 7),
                black_kingside: m5.black_kingside && !(mv.start.x == 7 && mv.start.y == 7),
                ..m5
            }
        } else {
            m5
        };
        if p.piece_type == PieceType::King {
            let mc1 = if spec_kingside_castle(mv) {
                m6.set_at(
                    5,
                    mv.end.y as int,
                    Piece { piece_type: PieceType::Rook, color: p.color },
                ).set_at(7, mv.end.y as int, empty_piece())
            } else {
                m6
            };
            let mc2 = if spec_queenside_castle(mv) {
                mc1.set_at(
                    3,
                    mv.end.y as int,
                    Piece { piece_type: PieceType::Rook, color: p.color },
                ).set_at(0, mv.end.y as int, empty_piece())
            } else {
                mc1
            };
            if p.color == Color::White {
                BoardModel {
                    white_king: mv.end,
                    white_kingside: false,
                    white_queenside: false,
                    ..mc2
                }
            } else {
                BoardModel {
                    black_king: mv.end,
                    black_kingside: false,
                    black_queenside: false,
                    ..mc2
                }
            }
        } else {
            m6
        }
    }
}

/// How many steps separate coordinate `v` from the board edge in
/// direction `d`.
pub open spec fn edge_dist(v: int, d: int) -> int {
    if d > 0 {
        7 - v
    } else if d < 0 {
        v
    } else {
        0
    }
}

/// Walking from (x, y) one step at a time in direction (dx, dy): true iff
/// the first occupied square reached before the board edge holds a piece
/// of the attacking colour able to slide this way — a queen always, a rook
/// on a straight ray, a bishop on a diagonal one.
pub open spec fn spec_ray_checks(
    m: BoardModel,
    x: int,
    y: int,
    dx: int,
    dy: int,
    attacker: Color,
    straight: bool,
) -> bool
    decreases edge_dist(x, dx) + edge_dist(y, dy),
    when -1 <= dx <= 1 && -1 <= dy <= 1 && (dx != 0 || dy != 0)
{
    let nx = x + dx;
    let ny = y + dy;
    if !(0 <= nx <= 7 && 0 <= ny <= 7) {
        false
    } else {
        let p = m.at(nx, ny);
        if p.piece_type == PieceType::Empty {
            spec_ray_checks(m, nx, ny, dx, dy, attacker, straight)
        } else {
            p.color == attacker && (p.piece_type == PieceType::Queen || (straight
                && p.piece_type == PieceType::Rook) || (!straight && p.piece_type
                == PieceType::Bishop))
        }
    }
}

/// A knight of the attacking colour stands on (x, y).
pub open spec fn spec_knight_at(m: BoardModel, x: int, y: int, attacker: Color) -> bool {
    &&& 0 <= x <= 7
    &&& 0 <= y <= 7
    &&& m.at(x, y).piece_type == PieceType::Knight
    &&& m.at(x, y).color == attacker
}

/// A pawn of the attacking colour stands on (x, y).
pub open spec fn spec_pawn_at(m: BoardModel, x: int, y: int, attacker: Color) -> bool {
    &&& 0 <= x <= 7
    &&& 0 <= y <= 7
    &&& m.at(x, y).piece_type == PieceType::Pawn
    &&& m.at(x, y).color == attacker
}

/// The square is attacked by the side opposing the piece standing on it:
/// by a slider down one of the eight rays (stopping at the first occupied
/// square), by a knight from one of the eight knight offsets, or by a pawn
/// from one of the two forward-diagonal attacker squares, "forward" read
/// from the colour occupying the square.
pub open spec fn spec_checkp(m: BoardModel, pos: Position) -> bool {
    let d = m.at(pos.x as int, pos.y as int).color;
    let a = spec_opponent(d);
    let x = pos.x as int;
    let y = pos.y as int;
    ||| spec_ray_checks(m, x, y, 1, 0, a, true)
    ||| spec_ray_checks(m, x, y, -1, 0, a, true)
    ||| spec_ray_checks(m, x, y, 0, 1, a, true)
    ||| spec_ray_checks(m, x, y, 0, -1, a, true)
    ||| spec_ray_checks(m, x, y, 1, 1, a, false)
    ||| spec_ray_checks(m, x, y, 1, -1, a, false)
    ||| spec_ray_checks(m, x, y, -1, 1, a, false)
    ||| spec_ray_checks(m, x, y, -1, -1, a, false)
    ||| spec_knight_at(m, x + 1, y + 2, a)
    ||| spec_knight_at(m, x + 2, y + 1, a)
    ||| spec_knight_at(m, x + 2, y - 1, a)
    ||| spec_knight_at(m, x + 1, y - 2, a)
    ||| spec_knight_at(m, x - 1, y - 2, a)
    ||| spec_knight_at(m, x - 2, y - 1, a)
    ||| spec_knight_at(m, x - 2, y + 1, a)
    ||| spec_knight_at(m, x - 1, y + 2, a)
    ||| spec_pawn_at(m, x - 1, y + spec_pawn_dir(d), a)
    ||| spec_pawn_at(m, x + 1, y + spec_pawn_dir(d), a)
}

/// The moves of a slider standing on `start`, along the ray that leaves
/// (x, y) in direction (dx, dy): one move per empty square, then one
/// capture if the square that stops the walk holds an opposing piece.
pub open spec fn spec_ray_moves(
    m: BoardModel,
    start: Position,
    x: int,
    y: int,
    dx: int,
    dy: int,
    me: Color,
) -> Seq<Move>
    decreases edge_dist(x, dx) + edge_dist(y, dy),
    when -1 <= dx <= 1 && -1 <= dy <= 1 && (dx != 0 || dy != 0)
{
    let nx = x + dx;
    let ny = y + dy;
    if !(0 <= nx <= 7 && 0 <= ny <= 7) {
        Seq::empty()
    } else {
        let p = m.at(nx, ny);
        let mv = Move { start: start, end: Position { x: nx as isize, y: ny as isize } };
        if p.piece_type == PieceType::Empty {
            seq![mv] + spec_ray_moves(m, start, nx, ny, dx, dy, me)
        } else if p.color == spec_opponent(me) {
            seq![mv]
        } else {
            Seq::empty()
        }
    }
}

/// One candidate knight or king step onto (x, y): kept when the square is
/// on the board and not occupied by a piece of the mover's own colour.
pub open spec fn spec_step_opt(m: BoardModel, start: Position, me: Color, x: int, y: int) -> Seq<
    Move,
> {
    if 0 <= x <= 7 && 0 <= y <= 7 && m.at(x, y).color != me {
        seq![Move { start: start, end: Position { x: x as isize, y: y as isize } }]
    } else {
        Seq::empty()
    }
}

/// The eight knight offsets, each filtered as `spec_step_opt` says.
pub open spec fn spec_knight_moves(m: BoardModel, pos: Position, me: Color) -> Seq<Move> {
    let x = pos.x as int;
    let y = pos.y as int;
    spec_step_opt(m, pos, me, x + 1, y + 2) + spec_step_opt(m, pos, me, x + 2, y + 1)
        + spec_step_opt(m, pos, me, x + 2, y - 1) + spec_step_opt(m, pos, me, x + 1, y - 2)
        + spec_step_opt(m, pos, me, x - 1, y - 2) + spec_step_opt(m, pos, me, x - 2, y - 1)
        + spec_step_opt(m, pos, me, x - 2, y + 1) + spec_step_opt(m, pos, me, x - 1, y + 2)
}

/// The home rank a pawn of this colour double-pushes from (no rank for
/// the empty colour).
pub open spec fn spec_pawn_home(c: Color) -> int {
    match c {
        Color::White => 1,
        Color::Black => 6,
        Color::Empty => -2,
    }
}

/// One candidate diagonal pawn capture onto (x, y): kept when the square
/// is on the board and holds an opposing piece, or completes a live
/// en-passant capture.
pub open spec fn spec_pawn_cap_opt(m: BoardModel, pos: Position, me: Color, x: int, y: int) -> Seq<
    Move,
> {
    if 0 <= x <= 7 && 0 <= y <= 7 && (m.at(x, y).color == spec_opponent(me) || (spec_valid(
        m.en_pessant,
    ) && x == m.en_pessant.x && y == m.en_pessant.y + spec_pawn_dir(me))) {
        seq![Move { start: pos, end: Position { x: x as isize, y: y as isize } }]
    } else {
        Seq::empty()
    }
}

/// A pawn's forward moves: the single push onto an empty square, then
/// the double push from the home rank through two empty squares.
pub open spec fn spec_pawn_push_part(m: BoardModel, pos: Position, me: Color) -> Seq<Move> {
    let x = pos.x as int;
    let y = pos.y as int;
    let dir = spec_pawn_dir(me);
    let push1 = if 0 <= y + dir <= 7 && m.at(x, y + dir).piece_type == PieceType::Empty {
        seq![Move { start: pos, end: Position { x: pos.x, y: (y + dir) as isize } }]
    } else {
        Seq::empty()
    };
    let push2 = if y == spec_pawn_home(me) && 0 <= y + dir <= 7 && m.at(x, y + dir).piece_type
        == PieceType::Empty && 0 <= y + 2 * dir <= 7 && m.at(x, y + 2 * dir).piece_type
        == PieceType::Empty {
        seq![Move { start: pos, end: Position { x: pos.x, y: (y + 2 * dir) as isize } }]
    } else {
        Seq::empty()
    };
    push1 + push2
}

/// A pawn's moves: the pushes of `spec_pawn_push_part`, then the two
/// diagonal captures of `spec_pawn_cap_opt`.
pub open spec fn spec_pawn_moves(m: BoardModel, pos: Position, me: Color) -> Seq<Move> {
    let x = pos.x as int;
    let y = pos.y as int;
    let dir = spec_pawn_dir(me);
    spec_pawn_push_part(m, pos, me) + spec_pawn_cap_opt(m, pos, me, x - 1, y + dir)
        + spec_pawn_cap_opt(m, pos, me, x + 1, y + dir)
}

/// One candidate king step onto (x, y): kept as `spec_step_opt` says and
/// only if, after the move is applied speculatively, the king's new
/// square is not attacked.
pub open spec fn spec_king_opt(m: BoardModel, start: Position, me: Color, x: int, y: int) -> Seq<
    Move,
> {
    if 0 <= x <= 7 && 0 <= y <= 7 && m.at(x, y).color != me {
        let mv = Move { start: start, end: Position { x: x as isize, y: y as isize } };
        if !spec_checkp(spec_make_move(m, mv), mv.end) {
            seq![mv]
        } else {
            Seq::empty()
        }
    } else {
        Seq::empty()
    }
}

/// The castle moves open to a king standing on its starting square: the
/// right must still be held and the squares between king and rook empty.
/// (The squares the king crosses are not tested for attack here; the
/// legality filter checks only the destination.)
pub open spec fn spec_castle_moves(m: BoardModel, pos: Position, me: Color) -> Seq<Move> {
    let ks = if me == Color::White && pos == (Position { x: 4, y: 0 }) && m.white_kingside && m.at(
        5,
        0,
    ).piece_type == PieceType::Empty && m.at(6, 0).piece_type == PieceType::Empty {
        seq![Move { start: pos, end: Position { x: 6, y: 0 } }]
    } else if me == Color::Black && pos == (Position { x: 4, y: 7 }) && m.black_kingside && m.at(
        5,
        7,
    ).piece_type == PieceType::Empty && m.at(6, 7).piece_type == PieceType::Empty {
        seq![Move { start: pos, end: Position { x: 6, y: 7 } }]
    } else {
        Seq::empty()
    };
    let qs = if me == Color::White && pos == (Position { x: 4, y: 0 }) && m.white_queenside
        && m.at(1, 0).piece_type == PieceType::Empty && m.at(2, 0).piece_type == PieceType::Empty
        && m.at(3, 0).piece_type == PieceType::Empty {
        seq![Move { start: pos, end: Position { x: 2, y: 0 } }]
    } else if me == Color::Black && pos == (Position { x: 4, y: 7 }) && m.black_queenside && m.at(
        1,
        7,
    ).piece_type == PieceType::Empty && m.at(2, 7).piece_type == PieceType::Empty && m.at(
        3,
        7,
    ).piece_type == PieceType::Empty {
        seq![Move { start: pos, end: Position { x: 2, y: 7 } }]
    } else {
        Seq::empty()
    };
    ks + qs
}

/// A king's moves: the eight adjacent steps, each safety-checked as
/// `spec_king_opt` says, then the castle moves.
pub open spec fn spec_king_moves(m: BoardModel, pos: Position, me: Color) -> Seq<Move> {
    let x = pos.x as int;
    let y = pos.y as int;
    spec_king_opt(m, pos, me, x, y + 1) + spec_king_opt(m, pos, me, x, y - 1) + spec_king_opt(
        m,
        pos,
        me,
        x - 1,
        y,
    ) + spec_king_opt(m, pos, me, x + 1, y) + spec_king_opt(m, pos, me, x - 1, y + 1)
        + spec_king_opt(m, pos, me, x + 1, y + 1) + spec_king_opt(m, pos, me, x - 1, y - 1)
        + spec_king_opt(m, pos, me, x + 1, y - 1) + spec_castle_moves(m, pos, me)
}

/// The pseudo-legal moves of the piece standing on `pos`, by its kind;
/// an empty square yields none.
pub open spec fn spec_moves(m: BoardModel, pos: Position) -> Seq<Move> {
    let p = m.at(pos.x as int, pos.y as int);
    let me = p.color;
    let x = pos.x as int;
    let y = pos.y as int;
    match p.piece_type {
        PieceType::Pawn => spec_pawn_moves(m, pos, me),
        PieceType::Knight => spec_knight_moves(m, pos, me),
        PieceType::Rook => spec_ray_moves(m, pos, x, y, 1, 0, me) + spec_ray_moves(
            m,
            pos,
            x,
            y,
            -1,
            0,
            me,
        ) + spec_ray_moves(m, pos, x, y, 0, 1, me) + spec_ray_moves(m, pos, x, y, 0, -1, me),
        PieceType::Bishop => spec_ray_moves(m, pos, x, y, 1, 1, me) + spec_ray_moves(
            m,
            pos,
            x,
            y,
            1,
            -1,
            me,
        ) + spec_ray_moves(m, pos, x, y, -1, 1, me) + spec_ray_moves(m, pos, x, y, -1, -1, me),
        PieceType::Queen => spec_ray_moves(m, pos, x, y, 1, 0, me) + spec_ray_moves(
            m,
            pos,
            x,
            y,
            -1,
            0,
            me,
        ) + spec_ray_moves(m, pos, x, y, 0, 1, me) + spec_ray_moves(m, pos, x, y, 0, -1, me)
            + spec_ray_moves(m, pos, x, y, 1, 1, me) + spec_ray_moves(m, pos, x, y, 1, -1, me)
            + spec_ray_moves(m, pos, x, y, -1, 1, me) + spec_ray_moves(m, pos, x, y, -1, -1, me),
        PieceType::King => spec_king_moves(m, pos, me),
        PieceType::Empty => Seq::empty(),
    }
}

/// The move does not leave the mover's own king attacked: applying it to
/// the board, the cached king square of that colour (re-resolved, so a
/// king move is judged at its destination) is not under attack.
pub open spec fn spec_keep_move(m: BoardModel, c: Color, mv: Move) -> bool {
    let m2 = spec_make_move(m, mv);
    !spec_checkp(m2, m2.king_of(c))
}

/// The pseudo-legal moves that survive the king-safety filter, in order.
pub open spec fn spec_filter_legal(m: BoardModel, c: Color, s: Seq<Move>) -> Seq<Move>
    decreases s.len(),
{
    if s.len() == 0 {
        Seq::empty()
    } else {
        let rest = spec_filter_legal(m, c, s.drop_first());
        if spec_keep_move(m, c, s.first()) {
            seq![s.first()] + rest
        } else {
            rest
        }
    }
}

/// The legal moves contributed by one square: none unless the piece on it
/// belongs to the moving side.
pub open spec fn spec_square_moves(m: BoardModel, c: Color, x: int, y: int) -> Seq<Move> {
    if m.at(x, y).color == c {
        spec_filter_legal(m, c, spec_moves(m, Position { x: x as isize, y: y as isize }))
    } else {
        Seq::empty()
    }
}

/// The legal moves of all squares from (x, y) on, scanning the files
/// and, within a file, the ranks in rising order.
pub open spec fn spec_all_moves_from(m: BoardModel, c: Color, x: int, y: int) -> Seq<Move>
    decreases 8 - x, 8 - y,
    when 0 <= x <= 8 && 0 <= y <= 8
{
    if x >= 8 {
        Seq::empty()
    } else if y >= 8 {
        spec_all_moves_from(m, c, x + 1, 0)
    } else {
        spec_square_moves(m, c, x, y) + spec_all_moves_from(m, c, x, y + 1)
    }
}

/// Every legal move of the given side.
pub open spec fn spec_all_moves(m: BoardModel, c: Color) -> Seq<Move> {
    spec_all_moves_from(m, c, 0, 0)
}

/// The side is checkmated: its king square is attacked and it has no
/// legal move. (An empty move list without check — stalemate — is not
/// checkmate.)
pub open spec fn spec_checkmate(m: BoardModel, c: Color) -> bool {
    spec_checkp(m, m.king_of(c)) && spec_all_moves(m, c).len() == 0
}

/// Applying a move keeps both cached king squares on the board: a king
/// move caches its (valid) destination and any other move leaves the
/// caches alone.
pub proof fn lemma_make_move_kings(m: BoardModel, mv: Move)
    requires
        spec_valid(mv.end),
        kings_on_board(m),
    ensures
        kings_on_board(spec_make_move(m, mv)),
{
}

/// Every move in the sequence joins two squares on the board.
pub open spec fn moves_valid(s: Seq<Move>) -> bool {
    forall|i: int|
        0 <= i < s.len() ==> spec_valid((#[trigger] s[i]).start) && spec_valid(s[i].end)
}

impl Board {
    /// The piece standing on a valid square.
    pub fn get_piece(&self, pos: Position) -> (r: Piece)
        requires
            spec_valid(pos),
        ensures
            r == self@.at(pos.x as int, pos.y as int),
    {
        self.board[pos.y as usize][pos.x as usize]
    }

    /// Replaces the piece standing on a valid square.
    pub fn put_piece(&mut self, pos: Position, piece: Piece)
        requires
            spec_valid(pos),
        ensures
            final(self)@ == old(self)@.set_at(pos.x as int, pos.y as int, piece),
    {
        let xu = pos.x as usize;
        let yu = pos.y as usize;
        let mut row: [Piece; 8] = self.board[yu];
        row[xu] = piece;
        self.board[yu] = row;
        proof {
            assert(self@ =~~= old(self)@.set_at(pos.x as int, pos.y as int, piece));
        }
    }

    /// Walks the ray from `pos` in direction (dx, dy) to the first
    /// occupied square, as `spec_ray_checks` describes.
    fn ray_check(&self, pos: Position, dx: isize, dy: isize, attacker: Color, straight: bool) -> (r:
        bool)
        requires
            spec_valid(pos),
            -1 <= dx <= 1,
            -1 <= dy <= 1,
            dx != 0 || dy != 0,
        ensures
            r == spec_ray_checks(
                self@,
                pos.x as int,
                pos.y as int,
                dx as int,
                dy as int,
                attacker,
                straight,
            ),
    {
        let mut cx: isize = pos.x;
        let mut cy: isize = pos.y;
        loop
            invariant
                0 <= cx <= 7,
                0 <= cy <= 7,
                -1 <= dx <= 1,
                -1 <= dy <= 1,
                dx != 0 || dy != 0,
                spec_ray_checks(
                    self@,
                    pos.x as int,
                    pos.y as int,
                    dx as int,
                    dy as int,
                    attacker,
                    straight,
                ) == spec_ray_checks(
                    self@,
                    cx as int,
                    cy as int,
                    dx as int,
                    dy as int,
                    attacker,
                    straight,
                ),
            decreases edge_dist(cx as int, dx as int) + edge_dist(cy as int, dy as int),
        {
            let nx = cx + dx;
            let ny = cy + dy;
            if nx < 0 || nx > 7 || ny < 0 || ny > 7 {
                return false;
            }
            let p = self.get_piece(Position { x: nx, y: ny });
            if p.piece_type == PieceType::Empty {
                cx = nx;
                cy = ny;
            } else {
                return p.color == attacker && (p.piece_type == PieceType::Queen || (straight
                    && p.piece_type == PieceType::Rook) || (!straight && p.piece_type
                    == PieceType::Bishop));
            }
        }
    }

    /// Whether a knight of the attacking colour stands on (x, y); false
    /// off the board.
    fn knight_check(&self, x: isize, y: isize, attacker: Color) -> (r: bool)
        ensures
            r == spec_knight_at(self@, x as int, y as int, attacker),
    {
        if x >= 0 && x <= 7 && y >= 0 && y <= 7 {
            let p = self.get_piece(Position { x: x, y: y });
            p.piece_type == PieceType::Knight && p.color == attacker
        } else {
            false
        }
    }

    /// Whether a pawn of the attacking colour stands on (x, y); false off
    /// the board.
    fn pawn_check(&self, x: isize, y: isize, attacker: Color) -> (r: bool)
        ensures
            r == spec_pawn_at(self@, x as int, y as int, attacker),
    {
        if x >= 0 && x <= 7 && y >= 0 && y <= 7 {
            let p = self.get_piece(Position { x: x, y: y });
            p.piece_type == PieceType::Pawn && p.color == attacker
        } else {
            false
        }
    }

    /// Whether the piece standing on `pos` is attacked by the opposing
    /// side, as `spec_checkp` describes.
    pub fn checkp(&self, pos: Position) -> (r: bool)
        requires
            spec_valid(pos),
        ensures
            r == spec_checkp(self@, pos),
    {
        let defender = self.get_piece(pos).color;
        let attacker = defender.opponent_color();
        let dir: isize = if defender == Color::White {
            1
        } else if defender == Color::Black {
            -1
        } else {
            0
        };
        self.ray_check(pos, 1, 0, attacker, true) || self.ray_check(pos, -1, 0, attacker, true)
            || self.ray_check(pos, 0, 1, attacker, true) || self.ray_check(
            pos,
            0,
            -1,
            attacker,
            true,
        ) || self.ray_check(pos, 1, 1, attacker, false) || self.ray_check(
            pos,
            1,
            -1,
            attacker,
            false,
        ) || self.ray_check(pos, -1, 1, attacker, false) || self.ray_check(
            pos,
            -1,
            -1,
            attacker,
            false,
        ) || self.knight_check(pos.x + 1, pos.y + 2, attacker) || self.knight_check(
            pos.x + 2,
            pos.y + 1,
            attacker,
        ) || self.knight_check(pos.x + 2, pos.y - 1, attacker) || self.knight_check(
            pos.x + 1,
            pos.y - 2,
            attacker,
        ) || self.knight_check(pos.x - 1, pos.y - 2, attacker) || self.knight_check(
            pos.x - 2,
            pos.y - 1,
            attacker,
        ) || self.knight_check(pos.x - 2, pos.y + 1, attacker) || self.knight_check(
            pos.x - 1,
            pos.y + 2,
            attacker,
        ) || self.pawn_check(pos.x - 1, pos.y + dir, attacker) || self.pawn_check(
            pos.x + 1,
            pos.y + dir,
            attacker,
        )
    }

    /// Appends the slider moves down one ray from `pos`, as
    /// `spec_ray_moves` describes.
    fn ray_append(&self, v: &mut Vec<Move>, pos: Position, dx: isize, dy: isize, me: Color)
        requires
            spec_valid(pos),
            -1 <= dx <= 1,
            -1 <= dy <= 1,
            dx != 0 || dy != 0,
        ensures
            final(v)@ == old(v)@ + spec_ray_moves(
                self@,
                pos,
                pos.x as int,
                pos.y as int,
                dx as int,
                dy as int,
                me,
            ),
            moves_valid(old(v)@) ==> moves_valid(final(v)@),
    {
        let ghost v0 = v@;
        let mut cx: isize = pos.x;
        let mut cy: isize = pos.y;
        loop
            invariant
                0 <= cx <= 7,
                0 <= cy <= 7,
                -1 <= dx <= 1,
                -1 <= dy <= 1,
                dx != 0 || dy != 0,
                spec_valid(pos),
                v0 == old(v)@,
                moves_valid(v0) ==> moves_valid(v@),
                v0 + spec_ray_moves(
                    self@,
                    pos,
                    pos.x as int,
                    pos.y as int,
                    dx as int,
                    dy as int,
                    me,
                ) =~= v@ + spec_ray_moves(self@, pos, cx as int, cy as int, dx as int, dy as int, me),
            decreases edge_dist(cx as int, dx as int) + edge_dist(cy as int, dy as int),
        {
            let nx = cx + dx;
            let ny = cy + dy;
            if nx < 0 || nx > 7 || ny < 0 || ny > 7 {
                proof {
                    assert(v0 + spec_ray_moves(
                        self@,
                        pos,
                        pos.x as int,
                        pos.y as int,
                        dx as int,
                        dy as int,
                        me,
                    ) =~= v@);
                }
                return;
            }
            let p = self.get_piece(Position { x: nx, y: ny });
            let mv = Move { start: pos, end: Position { x: nx, y: ny } };
            if p.piece_type == PieceType::Empty {
                v.push(mv);
                cx = nx;
                cy = ny;
            } else {
                if p.color == me.opponent_color() {
                    v.push(mv);
                }
                proof {
                    assert(v0 + spec_ray_moves(
                        self@,
                        pos,
                        pos.x as int,
                        pos.y as int,
                        dx as int,
                        dy as int,
                        me,
                    ) =~= v@);
                }
                return;
            }
        }
    }

    /// Appends one candidate knight step, as `spec_step_opt` describes.
    fn step_try(&self, v: &mut Vec<Move>, start: Position, x: isize, y: isize, me: Color)
        requires
            spec_valid(start),
        ensures
            final(v)@ == old(v)@ + spec_step_opt(self@, start, me, x as int, y as int),
            moves_valid(old(v)@) ==> moves_valid(final(v)@),
    {
        if x >= 0 && x <= 7 && y >= 0 && y <= 7 {
            if self.get_piece(Position { x: x, y: y }).color != me {
                v.push(Move { start: start, end: Position { x: x, y: y } });
            }
        }
        proof {
            assert(v@ =~= old(v)@ + spec_step_opt(self@, start, me, x as int, y as int));
        }
    }

    /// Appends one candidate king step, as `spec_king_opt` describes: the
    /// step is tried on a copy of the board and kept only if the king's
    /// new square comes out unattacked.
    fn king_try(&self, v: &mut Vec<Move>, start: Position, x: isize, y: isize, me: Color)
        requires
            spec_valid(start),
        ensures
            final(v)@ == old(v)@ + spec_king_opt(self@, start, me, x as int, y as int),
            moves_valid(old(v)@) ==> moves_valid(final(v)@),
    {
        if x >= 0 && x <= 7 && y >= 0 && y <= 7 {
            if self.get_piece(Position { x: x, y: y }).color != me {
                let mv = Move { start: start, end: Position { x: x, y: y } };
                let mut nb: Board = *self;
                nb.make_move(mv);
                if !nb.checkp(mv.end) {
                    v.push(mv);
                }
            }
        }
        proof {
            assert(v@ =~= old(v)@ + spec_king_opt(self@, start, me, x as int, y as int));
        }
    }

    /// A pawn's pseudo-legal moves, as `spec_pawn_moves` describes.
    fn pawn_moves(&self, pos: Position, me: Color) -> (r: Vec<Move>)
        requires
            spec_valid(pos),
        ensures
            r@ == spec_pawn_moves(self@, pos, me),
            moves_valid(r@),
    {
        let dir: isize = if me == Color::White {
            1
        } else if me == Color::Black {
            -1
        } else {
            0
        };
        let home: isize = if me == Color::White {
            1
        } else if me == Color::Black {
            6
        } else {
            -2
        };
        let mut v: Vec<Move> = Vec::new();
        let fy = pos.y + dir;
        if fy >= 0 && fy <= 7 && self.get_piece(Position { x: pos.x, y: fy }).piece_type
            == PieceType::Empty {
            v.push(Move { start: pos, end: Position { x: pos.x, y: fy } });
        }
        let fy2 = pos.y + 2 * dir;
        if pos.y == home && fy >= 0 && fy <= 7 && self.get_piece(
            Position { x: pos.x, y: fy },
        ).piece_type == PieceType::Empty && fy2 >= 0 && fy2 <= 7 && self.get_piece(
            Position { x: pos.x, y: fy2 },
        ).piece_type == PieceType::Empty {
            v.push(Move { start: pos, end: Position { x: pos.x, y: fy2 } });
        }
        let cxs: [isize; 2] = [-1, 1];
        let mut side: usize = 0;
        let opp = me.opponent_color();
        while side < 2
            invariant
                spec_valid(pos),
                -1 <= dir <= 1,
                opp == spec_opponent(me),
                dir == spec_pawn_dir(me),
                side <= 2,
                moves_valid(v@),
                v@ =~= {
                    let push_part = spec_pawn_push_part(self@, pos, me);
                    if side == 0 {
                        push_part
                    } else if side == 1 {
                        push_part + spec_pawn_cap_opt(
                            self@,
                            pos,
                            me,
                            pos.x - 1,
                            pos.y + spec_pawn_dir(me),
                        )
                    } else {
                        spec_pawn_moves(self@, pos, me)
                    }
                },
            decreases 2 - side,
        {
            let dxx: isize = if side == 0 {
                -1
            } else {
                1
            };
            let cx = pos.x + dxx;
            let cy = pos.y + dir;
            if cx >= 0 && cx <= 7 && cy >= 0 && cy <= 7 {
                let p = self.get_piece(Position { x: cx, y: cy });
                let is_cap = p.color == opp;
                let is_ep = self.en_pessant.validp() && cx == self.en_pessant.x && cy
                    == self.en_pessant.y + dir;
                if is_cap || is_ep {
                    v.push(Move { start: pos, end: Position { x: cx, y: cy } });
                }
            }
            side = side + 1;
        }
        v
    }

    /// A king's pseudo-legal moves, as `spec_king_moves` describes.
    #[verifier::rlimit(100)]
    fn king_moves(&self, pos: Position, me: Color) -> (r: Vec<Move>)
        requires
            spec_valid(pos),
        ensures
            r@ == spec_king_moves(self@, pos, me),
            moves_valid(r@),
    {
        let mut v: Vec<Move> = Vec::new();
        self.king_try(&mut v, pos, pos.x, pos.y + 1, me);
        self.king_try(&mut v, pos, pos.x, pos.y - 1, me);
        self.king_try(&mut v, pos, pos.x - 1, pos.y, me);
        self.king_try(&mut v, pos, pos.x + 1, pos.y, me);
        self.king_try(&mut v, pos, pos.x - 1, pos.y + 1, me);
        self.king_try(&mut v, pos, pos.x + 1, pos.y + 1, me);
        self.king_try(&mut v, pos, pos.x - 1, pos.y - 1, me);
        self.king_try(&mut v, pos, pos.x + 1, pos.y - 1, me);
        if me == Color::White && pos.x == 4 && pos.y == 0 && self.white_kingside && self.get_piece(
            Position { x: 5, y: 0 },
        ).piece_type == PieceType::Empty && self.get_piece(
            Position { x: 6, y: 0 },
        ).piece_type == PieceType::Empty {
            v.push(Move { start: pos, end: Position { x: 6, y: 0 } });
        } else if me == Color::Black && pos.x == 4 && pos.y == 7 && self.black_kingside
            && self.get_piece(Position { x: 5, y: 7 }).piece_type == PieceType::Empty
            && self.get_piece(Position { x: 6, y: 7 }).piece_type == PieceType::Empty {
            v.push(Move { start: pos, end: Position { x: 6, y: 7 } });
        }
        if me == Color::White && pos.x == 4 && pos.y == 0 && self.white_queenside
            && self.get_piece(Position { x: 1, y: 0 }).piece_type == PieceType::Empty
            && self.get_piece(Position { x: 2, y: 0 }).piece_type == PieceType::Empty
            && self.get_piece(Position { x: 3, y: 0 }).piece_type == PieceType::Empty {
            v.push(Move { start: pos, end: Position { x: 2, y: 0 } });
        } else if me == Color::Black && pos.x == 4 && pos.y == 7 && self.black_queenside
            && self.get_piece(Position { x: 1, y: 7 }).piece_type == PieceType::Empty
            && self.get_piece(Position { x: 2, y: 7 }).piece_type == PieceType::Empty
            && self.get_piece(Position { x: 3, y: 7 }).piece_type == PieceType::Empty {
            v.push(Move { start: pos, end: Position { x: 2, y: 7 } });
        }
        proof {
            assert(v@ =~= spec_king_moves(self@, pos, me));
        }
        v
    }

    /// The pseudo-legal moves of the piece standing on `pos`, as
    /// `spec_moves` describes.
    pub fn get_moves(&self, pos: Position) -> (r: Vec<Move>)
        requires
            spec_valid(pos),
        ensures
            r@ == spec_moves(self@, pos),
            moves_valid(r@),
    {
        let p = self.get_piece(pos);
        let me = p.color;
        let mut v: Vec<Move> = Vec::new();
        match p.piece_type {
            PieceType::Pawn => {
                v = self.pawn_moves(pos, me);
            },
            PieceType::Knight => {
                self.step_try(&mut v, pos, pos.x + 1, pos.y + 2, me);
                self.step_try(&mut v, pos, pos.x + 2, pos.y + 1, me);
                self.step_try(&mut v, pos, pos.x + 2, pos.y - 1, me);
                self.step_try(&mut v, pos, pos.x + 1, pos.y - 2, me);
                self.step_try(&mut v, pos, pos.x - 1, pos.y - 2, me);
                self.step_try(&mut v, pos, pos.x - 2, pos.y - 1, me);
                self.step_try(&mut v, pos, pos.x - 2, pos.y + 1, me);
                self.step_try(&mut v, pos, pos.x - 1, pos.y + 2, me);
                proof {
                    assert(v@ =~= spec_knight_moves(self@, pos, me));
                }
            },
            PieceType::Rook => {
                self.ray_append(&mut v, pos, 1, 0, me);
                self.ray_append(&mut v, pos, -1, 0, me);
                self.ray_append(&mut v, pos, 0, 1, me);
                self.ray_append(&mut v, pos, 0, -1, me);
                proof {
                    assert(v@ =~= spec_moves(self@, pos));
                }
            },
            PieceType::Bishop => {
                self.ray_append(&mut v, pos, 1, 1, me);
                self.ray_append(&mut v, pos, 1, -1, me);
                self.ray_append(&mut v, pos, -1, 1, me);
                self.ray_append(&mut v, pos, -1, -1, me);
                proof {
                    assert(v@ =~= spec_moves(self@, pos));
                }
            },
            PieceType::Queen => {
                self.ray_append(&mut v, pos, 1, 0, me);
                self.ray_append(&mut v, pos, -1, 0, me);
                self.ray_append(&mut v, pos, 0, 1, me);
                self.ray_append(&mut v, pos, 0, -1, me);
                self.ray_append(&mut v, pos, 1, 1, me);
                self.ray_append(&mut v, pos, 1, -1, me);
                self.ray_append(&mut v, pos, -1, 1, me);
                self.ray_append(&mut v, pos, -1, -1, me);
                proof {
                    assert(v@ =~= spec_moves(self@, pos));
                }
            },
            PieceType::King => {
                v = self.king_moves(pos, me);
            },
            PieceType::Empty => {},
        }
        v
    }

    /// Every legal move of the given side, as `spec_all_moves` describes:
    /// each own piece's pseudo-legal moves, kept only when applying the
    /// move on a copy of the board leaves that side's own king square
    /// (re-resolved after the trial move) unattacked. This post-hoc filter
    /// is the sole legality gate for every piece but the king, whose
    /// single steps pre-filter the same way.
    #[verifier::rlimit(100)]
    pub fn get_all_moves(&self, color: Color) -> (r: Vec<Move>)
        requires
            kings_on_board(self@),
        ensures
            r@ == spec_all_moves(self@, color),
            moves_valid(r@),
            forall|i: int| 0 <= i < r@.len() ==> spec_keep_move(self@, color, #[trigger] r@[i]),
    {
        let mut res: Vec<Move> = Vec::new();
        let mut x: usize = 0;
        while x < 8
            invariant
                x <= 8,
                kings_on_board(self@),
                moves_valid(res@),
                forall|i: int|
                    0 <= i < res@.len() ==> spec_keep_move(self@, color, #[trigger] res@[i]),
                spec_all_moves(self@, color) =~= res@ + spec_all_moves_from(
                    self@,
                    color,
                    x as int,
                    0,
                ),
            decreases 8 - x,
        {
            let mut y: usize = 0;
            while y < 8
                invariant
                    x < 8,
                    y <= 8,
                    kings_on_board(self@),
                    moves_valid(res@),
                    forall|i: int|
                        0 <= i < res@.len() ==> spec_keep_move(self@, color, #[trigger] res@[i]),
                    spec_all_moves(self@, color) =~= res@ + spec_all_moves_from(
                        self@,
                        color,
                        x as int,
                        y as int,
                    ),
                decreases 8 - y,
            {
                let pos = Position { x: x as isize, y: y as isize };
                let p = self.get_piece(pos);
                let ghost res0 = res@;
                if p.color == color {
                    let mvs = self.get_moves(pos);
                    proof {
                        assert(mvs@.skip(0) =~= mvs@);
                    }
                    let mut j: usize = 0;
                    while j < mvs.len()
                        invariant
                            j <= mvs.len(),
                            kings_on_board(self@),
                            spec_valid(pos),
                            mvs@ == spec_moves(self@, pos),
                            moves_valid(mvs@),
                            moves_valid(res@),
                            forall|i: int|
                                0 <= i < res@.len() ==> spec_keep_move(
                                    self@,
                                    color,
                                    #[trigger] res@[i],
                                ),
                            res0 + spec_filter_legal(self@, color, mvs@) =~= res@
                                + spec_filter_legal(self@, color, mvs@.skip(j as int)),
                        decreases mvs.len() - j,
                    {
                        let mv = mvs[j];
                        let mut nb: Board = *self;
                        nb.make_move(mv);
                        let king = if color == Color::White {
                            nb.white_king
                        } else {
                            nb.black_king
                        };
                        proof {
                            lemma_make_move_kings(self@, mv);
                            assert(king == nb@.king_of(color));
                        }
                        if !nb.checkp(king) {
                            res.push(mv);
                        }
                        proof {
                            assert(mvs@.skip(j as int).first() == mvs@[j as int]);
                            assert(mvs@.skip(j as int).drop_first() =~= mvs@.skip(j as int + 1));
                        }
                        j = j + 1;
                    }
                    proof {
                        assert(mvs@.skip(mvs@.len() as int) =~= Seq::<Move>::empty());
                        assert(res@ =~= res0 + spec_square_moves(self@, color, x as int, y as int));
                    }
                } else {
                    proof {
                        assert(spec_square_moves(self@, color, x as int, y as int)
                            =~= Seq::<Move>::empty());
                    }
                }
                y = y + 1;
            }
            x = x + 1;
        }
        proof {
            assert(spec_all_moves_from(self@, color, 8, 0) =~= Seq::<Move>::empty());
            assert(res@ =~= spec_all_moves(self@, color));
        }
        res
    }

    /// The side is checkmated: its king is in check and it has no legal
    /// move, as `spec_checkmate` describes.
    pub fn checkmatep(&self, color: Color) -> (r: bool)
        requires
            kings_on_board(self@),
        ensures
            r == spec_checkmate(self@, color),
    {
        let king = if color == Color::White {
            self.white_king
        } else {
            self.black_king
        };
        if !self.checkp(king) {
            return false;
        }
        self.get_all_moves(color).len() == 0
    }

    /// Applies a move as `spec_make_move` describes.
    pub fn make_move(&mut self, mv: Move)
        requires
            spec_valid(mv.start),
            spec_valid(mv.end),
        ensures
            final(self)@ == spec_make_move(old(self)@, mv),
    {
        let ghost m0 = self@;
        let piece = self.get_piece(mv.start);
        if piece.piece_type == PieceType::Empty {
            return;
        }
        if piece.piece_type == PieceType::Pawn && self.en_pessant.validp() && mv.start.x
            != mv.end.x {
            let dir: isize = if piece.color == Color::White {
                1
            } else if piece.color == Color::Black {
                -1
            } else {
                0
            };
            if mv.end.x == self.en_pessant.x && mv.end.y == self.en_pessant.y + dir {
                let ep = self.en_pessant;
                self.put_piece(ep, Piece { piece_type: PieceType::Empty, color: Color::Empty });
            }
        }
        let ghost m1 = self@;
        proof {
            assert(m1 == if spec_is_ep_capture(m0, mv, piece) {
                m0.set_at(m0.en_pessant.x as int, m0.en_pessant.y as int, empty_piece())
            } else {
                m0
            });
        }
        self.en_pessant = Position { x: -1, y: -1 };
        proof {
            assert(self@ =~~= BoardModel { en_pessant: Position { x: -1isize, y: -1isize }, ..m1 });
        }
        self.put_piece(mv.end, piece);
        self.put_piece(
            mv.start,
            Piece { piece_type: PieceType::Empty, color: Color::Empty },
        );
        if piece.piece_type == PieceType::Pawn && ((piece.color == Color::White && mv.end.y == 7)
            || (piece.color == Color::Black && mv.end.y == 0)) {
            self.put_piece(mv.end, Piece { piece_type: PieceType::Queen, color: piece.color });
        }
        let ghost m4 = self@;
        if piece.piece_type == PieceType::Pawn && (mv.end.y - mv.start.y == 2 || mv.start.y
            - mv.end.y == 2) {
            self.en_pessant = mv.end;
            proof {
                assert(self@ =~~= BoardModel { en_pessant: mv.end, ..m4 });
            }
        }
        let ghost m5 = self@;
        if piece.piece_type == PieceType::Rook {
            if mv.start.x == 0 && mv.start.y == 0 {
                self.white_queenside = false;
            }
            if mv.start.x == 7 && mv.start.y == 0 {
                self.white_kingside = false;
            }
            if mv.start.x == 0 && mv.start.y == 7 {
                self.black_queenside = false;
            }
            if mv.start.x == 7 && mv.start.y == 7 {
                self.black_kingside = false;
            }
            proof {
                assert(self@ =~~= BoardModel {
                    white_queenside: m5.white_queenside && !(mv.start.x == 0 && mv.start.y == 0),
                    white_kingside: m5.white_kingside && !(mv.start.x == 7 && mv.start.y == 0),
                    black_queenside: m5.black_queenside && !(mv.start.x == 0 && mv.start.y == 7),
                    black_kingside: m5.black_kingside && !(mv.start.x == 7 && mv.start.y == 7),
                    ..m5
                });
            }
        }
        if piece.piece_type == PieceType::King {
            if mv.kingside_castlep() {
                self.put_piece(
                    Position { x: 5, y: mv.end.y },
                    Piece { piece_type: PieceType::Rook, color: piece.color },
                );
                self.put_piece(
                    Position { x: 7, y: mv.end.y },
                    Piece { piece_type: PieceType::Empty, color: Color::Empty },
                );
            }
            if mv.queenside_castlep() {
                self.put_piece(
                    Position { x: 3, y: mv.end.y },
                    Piece { piece_type: PieceType::Rook, color: piece.color },
                );
                self.put_piece(
                    Position { x: 0, y: mv.end.y },
                    Piece { piece_type: PieceType::Empty, color: Color::Empty },
                );
            }
            let ghost mc2 = self@;
            if piece.color == Color::White {
                self.white_king = mv.end;
                self.white_kingside = false;
                self.white_queenside = false;
                proof {
                    assert(self@ =~~= BoardModel {
                        white_king: mv.end,
                        white_kingside: false,
                        white_queenside: false,
                        ..mc2
                    });
                }
            } else {
                self.black_king = mv.end;
                self.black_kingside = false;
                self.black_queenside = false;
                proof {
                    assert(self@ =~~= BoardModel {
                        black_king: mv.end,
                        black_kingside: false,
                        black_queenside: false,
                        ..mc2
                    });
                }
            }
        }
        proof {
            assert(self@ == spec_make_move(m0, mv));
        }
    }
}

} // verus!
