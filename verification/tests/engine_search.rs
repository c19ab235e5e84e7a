use chess_engine::board::Board;
use chess_engine::color::Color;
use chess_engine::engine::{AI, MoveScore};
use chess_engine::evaluator::{
    doubled_pawns, early_points, evaluate, get_pos_points, late_points, piece_points, points,
    BISHOP_POS, PAWN_POS,
};
use chess_engine::laws::minimax;
use chess_engine::move_::Move;
use chess_engine::piece::Piece;
use chess_engine::piece_type::PieceType;
use chess_engine::player::Player;
use chess_engine::position::Position;
use chess_engine::starting_board::make_board;

fn mv(sx: isize, sy: isize, ex: isize, ey: isize) -> Move {
    Move { start: Position { x: sx, y: sy }, end: Position { x: ex, y: ey } }
}

/// The opening position after 1. e4 d5: material is level but the
/// structure is not, and a capture hangs.
fn open_position() -> Board {
    let mut board = make_board();
    board.make_move(mv(4, 1, 4, 3)); // e2-e4
    board.make_move(mv(3, 6, 3, 4)); // d7-d5
    board
}

#[test]
fn starting_position_scores_level() {
    let board = make_board();
    assert_eq!(points(board, Color::White), 3900);
    assert_eq!(points(board, Color::Black), 3900);
    assert_eq!(early_points(board, Color::White), 3900);
    assert_eq!(late_points(board, Color::Black), 3900);
    assert_eq!(evaluate(board, Color::White), 0);
    assert_eq!(evaluate(board, Color::Black), 0);
    // No doubled pawns, no rooks on open or semi-open files, but each
    // side starts with its bishop pair.
    assert_eq!(doubled_pawns(board, Color::White), (0, 0, 0, true));
    assert_eq!(doubled_pawns(board, Color::Black), (0, 0, 0, true));
}

#[test]
fn piece_points_material_scale() {
    let p = Position { x: 0, y: 0 };
    assert_eq!(piece_points(PieceType::Pawn, p, Color::White), 100);
    assert_eq!(piece_points(PieceType::Knight, p, Color::Black), 300);
    assert_eq!(piece_points(PieceType::Bishop, p, Color::White), 300);
    assert_eq!(piece_points(PieceType::Rook, p, Color::White), 500);
    assert_eq!(piece_points(PieceType::Queen, p, Color::Black), 900);
    assert_eq!(piece_points(PieceType::King, p, Color::White), 0);
    assert_eq!(piece_points(PieceType::Empty, p, Color::Empty), 0);
}

#[test]
fn table_lookup_mirrors_by_color() {
    // Black reads the table as laid out; White through the reflection.
    let e4 = Position { x: 4, y: 3 };
    assert_eq!(get_pos_points(e4, Color::Black, PAWN_POS), PAWN_POS[3][4]);
    assert_eq!(get_pos_points(e4, Color::White, PAWN_POS), PAWN_POS[4][3]);
    let b5 = Position { x: 1, y: 4 };
    assert_eq!(get_pos_points(b5, Color::Black, BISHOP_POS), BISHOP_POS[4][1]);
    assert_eq!(get_pos_points(b5, Color::White, BISHOP_POS), BISHOP_POS[3][6]);
}

#[test]
fn capture_hint_prefers_big_victims_and_small_attackers() {
    let board = open_position();
    let ai = AI::new();
    // exd5: a pawn takes a pawn.
    assert_eq!(ai.mvv_lva_score(board, mv(4, 3, 3, 4)), 15);
    // A quiet pawn push scores only the attacker term.
    assert_eq!(ai.mvv_lva_score(board, mv(0, 1, 0, 2)), 5);
}

#[test]
fn pick_move_pulls_best_hint_forward() {
    let ai = AI::new();
    let a = mv(0, 1, 0, 2);
    let b = mv(1, 1, 1, 2);
    let c = mv(2, 1, 2, 2);
    let d = mv(3, 1, 3, 2);
    let mut list = vec![(a, 5), (b, 40), (c, 40), (d, 10)];
    ai.pick_move(&mut list, 0);
    // The first index holding the maximum is chosen on ties.
    assert_eq!(list, vec![(b, 40), (a, 5), (c, 40), (d, 10)]);
    ai.pick_move(&mut list, 2);
    assert_eq!(list, vec![(b, 40), (a, 5), (c, 40), (d, 10)]);
}

#[test]
fn search_same_inputs_same_answer() {
    let board = open_position();
    let first = board.get_all_moves(Color::White)[0];
    let mut ai1 = AI::new();
    let mut ai2 = AI::new();
    let r1 = ai1.search_depth(board, Color::White, 2, first, -32768);
    let r2 = ai2.search_depth(board, Color::White, 2, first, -32768);
    assert_eq!(r1, r2);
    // And again with the same engine value: the counter is no input.
    let r3 = ai1.search_depth(board, Color::White, 2, first, -32768);
    assert_eq!(r1, r3);
}

#[test]
fn alphabeta_matches_full_window_minimax() {
    let board = open_position();
    for depth in 0..3u8 {
        let mut ai = AI::new();
        let pruned = ai.alphabeta(board, depth, -32768, 32767, true, Color::White);
        let full = minimax(board, depth, true, Color::White);
        assert_eq!(pruned, full, "depth {depth} disagrees");
        let mut ai = AI::new();
        let pruned = ai.alphabeta(board, depth, -32768, 32767, false, Color::Black);
        let full = minimax(board, depth, false, Color::Black);
        assert_eq!(pruned, full, "depth {depth} (minimising) disagrees");
    }
}

#[test]
fn doubled_pawns_count_beyond_the_first() {
    // Stack pawns by hand: three white pawns on the c-file are two
    // doubled pawns, and two on the e-file are one more.
    let mut board = make_board();
    let blank = Piece { piece_type: PieceType::Empty, color: Color::Empty };
    let wp = Piece { piece_type: PieceType::Pawn, color: Color::White };
    board.put_piece(Position { x: 2, y: 2 }, wp);
    board.put_piece(Position { x: 2, y: 3 }, wp);
    board.put_piece(Position { x: 4, y: 4 }, wp);
    let (doubled, _, _, _) = doubled_pawns(board, Color::White);
    // c-file: c2, c3, c4 -> 2 beyond the first; e-file: e2, e5 -> 1.
    assert_eq!(doubled, 3);
    // Thin the c-file back to one pawn: only the e-file still counts.
    board.put_piece(Position { x: 2, y: 2 }, blank);
    board.put_piece(Position { x: 2, y: 3 }, blank);
    let (doubled, _, _, _) = doubled_pawns(board, Color::White);
    assert_eq!(doubled, 1);
}

#[test]
fn evaluation_is_antisymmetric() {
    let board = open_position();
    assert_eq!(evaluate(board, Color::White), -evaluate(board, Color::Black));
    let start = make_board();
    assert_eq!(evaluate(start, Color::White), -evaluate(start, Color::Black));
}

#[test]
fn tracing_search_matches_full_window_minimax() {
    let board = open_position();
    for depth in 0..3u8 {
        let mut ai = AI::new();
        let (pruned, _line) = ai.alphabeta_trace(board, depth, -32768, 32767, true, Color::White);
        let full = minimax(board, depth, true, Color::White);
        assert_eq!(pruned, full, "depth {depth} disagrees");
        let mut ai = AI::new();
        let (pruned, _line) = ai.alphabeta_trace(board, depth, -32768, 32767, false, Color::Black);
        let full = minimax(board, depth, false, Color::Black);
        assert_eq!(pruned, full, "depth {depth} (minimising) disagrees");
    }
}

#[test]
fn alphabeta_counts_positions() {
    let board = make_board();
    let mut ai = AI::new();
    assert_eq!(ai.pos_evaluated, 0);
    ai.alphabeta(board, 1, -32768, 32767, true, Color::White);
    // The root and at least one child were visited.
    assert!(ai.pos_evaluated > 1);
}

#[test]
fn alphabeta_sees_the_hanging_pawn() {
    // After 1. e4 d5, a one-ply search for White finds the capture.
    let board = open_position();
    let mut ai = AI::new();
    let score = ai.alphabeta(board, 1, -32768, 32767, true, Color::White);
    // Capturing the d5 pawn wins about a pawn; the positional tables and
    // the doubled d-pawn it leaves shave a few points off.
    assert!(score >= 90, "expected about a pawn up, got {score}");
}

#[test]
fn engine_turn_plays_a_legal_move() {
    // A sparse board keeps the fixed-depth turn quick: kings and a pawn.
    let mut board = make_board();
    let blank = Piece { piece_type: PieceType::Empty, color: Color::Empty };
    for x in 0..8 {
        for y in 0..8 {
            board.put_piece(Position { x, y }, blank);
        }
    }
    board.put_piece(
        Position { x: 4, y: 0 },
        Piece { piece_type: PieceType::King, color: Color::White },
    );
    board.put_piece(
        Position { x: 4, y: 7 },
        Piece { piece_type: PieceType::King, color: Color::Black },
    );
    board.put_piece(
        Position { x: 0, y: 1 },
        Piece { piece_type: PieceType::Pawn, color: Color::White },
    );
    board.white_king = Position { x: 4, y: 0 };
    board.black_king = Position { x: 4, y: 7 };
    board.white_kingside = false;
    board.white_queenside = false;
    board.black_kingside = false;
    board.black_queenside = false;
    let legal = board.get_all_moves(Color::White);
    let mut ai = AI::new();
    let picked = ai.take_turn(board, Color::White);
    assert!(legal.iter().any(|m| *m == picked));
}

#[test]
fn engine_turn_after_mate_is_the_placeholder() {
    let mut board = make_board();
    board.make_move(mv(5, 1, 5, 2)); // f2-f3
    board.make_move(mv(4, 6, 4, 4)); // e7-e5
    board.make_move(mv(6, 1, 6, 3)); // g2-g4
    board.make_move(mv(3, 7, 7, 3)); // Qd8-h4 mate
    assert!(board.checkmatep(Color::White));
    let mut ai = AI::new();
    let picked = ai.take_turn(board, Color::White);
    assert_eq!(picked, mv(0, 0, 0, 0));
}

#[test]
fn move_score_carries_board_and_score() {
    let board = make_board();
    let ms = MoveScore { board, score: -25 };
    assert_eq!(ms.score, -25);
    assert_eq!(ms.board.get_piece(Position { x: 0, y: 0 }).piece_type, PieceType::Rook);
}
