use chess_engine::board::Board;
use chess_engine::color::Color;
use chess_engine::move_::Move;
use chess_engine::piece::Piece;
use chess_engine::piece_type::PieceType;
use chess_engine::position::Position;
use chess_engine::starting_board::make_board;

fn mv(sx: isize, sy: isize, ex: isize, ey: isize) -> Move {
    Move { start: Position { x: sx, y: sy }, end: Position { x: ex, y: ey } }
}

fn contains(moves: &[Move], m: Move) -> bool {
    moves.iter().any(|x| *x == m)
}

/// Plays a move only after checking the generator offers it.
fn play(board: &mut Board, color: Color, m: Move) {
    let legal = board.get_all_moves(color);
    assert!(contains(&legal, m), "move not legal in this position");
    board.make_move(m);
}

#[test]
fn starting_board_twenty_moves_each() {
    let board = make_board();
    let white = board.get_all_moves(Color::White);
    let black = board.get_all_moves(Color::Black);
    assert_eq!(white.len(), 20);
    assert_eq!(black.len(), 20);
    // 16 pawn moves and 4 knight moves each.
    let wp = white
        .iter()
        .filter(|m| board.get_piece(m.start).piece_type == PieceType::Pawn)
        .count();
    let wn = white
        .iter()
        .filter(|m| board.get_piece(m.start).piece_type == PieceType::Knight)
        .count();
    assert_eq!(wp, 16);
    assert_eq!(wn, 4);
    let bp = black
        .iter()
        .filter(|m| board.get_piece(m.start).piece_type == PieceType::Pawn)
        .count();
    let bn = black
        .iter()
        .filter(|m| board.get_piece(m.start).piece_type == PieceType::Knight)
        .count();
    assert_eq!(bp, 16);
    assert_eq!(bn, 4);
}

#[test]
fn starting_board_not_in_check() {
    let board = make_board();
    assert!(!board.checkp(Position { x: 4, y: 0 }));
    assert!(!board.checkp(Position { x: 4, y: 7 }));
    assert!(!board.checkmatep(Color::White));
    assert!(!board.checkmatep(Color::Black));
}

#[test]
fn legal_moves_never_leave_own_king_attacked() {
    // Deterministic pseudo-random playout: after every applied legal move
    // the mover's king square must not be attacked.
    let mut board = make_board();
    let mut color = Color::White;
    let mut seed: u64 = 0x243F6A8885A308D3;
    for _ply in 0..120 {
        let moves = board.get_all_moves(color);
        if moves.is_empty() {
            break;
        }
        seed = seed.wrapping_mul(6364136223846793005).wrapping_add(1442695040888963407);
        let pick = (seed >> 33) as usize % moves.len();
        let m = moves[pick];
        board.make_move(m);
        let king = if color == Color::White { board.white_king } else { board.black_king };
        assert!(!board.checkp(king), "a generated move left its own king attacked");
        color = color.opponent_color();
    }
}

#[test]
fn en_passant_capture_removes_bypassed_pawn() {
    let mut board = make_board();
    // Walk a black pawn to d4, then double-push the white e-pawn past it.
    play(&mut board, Color::White, mv(0, 1, 0, 2)); // a2-a3
    play(&mut board, Color::Black, mv(3, 6, 3, 4)); // d7-d5
    play(&mut board, Color::White, mv(0, 2, 0, 3)); // a3-a4
    play(&mut board, Color::Black, mv(3, 4, 3, 3)); // d5-d4
    play(&mut board, Color::White, mv(4, 1, 4, 3)); // e2-e4, the double push
    assert_eq!(board.en_pessant, Position { x: 4, y: 3 });
    let black_moves = board.get_all_moves(Color::Black);
    let capture = mv(3, 3, 4, 2); // d4xe3 en passant
    assert!(contains(&black_moves, capture));
    board.make_move(capture);
    // The bypassed e4 pawn is gone and the black pawn stands on e3.
    assert_eq!(board.get_piece(Position { x: 4, y: 3 }).piece_type, PieceType::Empty);
    let e3 = board.get_piece(Position { x: 4, y: 2 });
    assert_eq!(e3.piece_type, PieceType::Pawn);
    assert_eq!(e3.color, Color::Black);
    // The target is spent: it was valid for exactly one reply.
    assert_eq!(board.en_pessant, Position { x: -1, y: -1 });
}

#[test]
fn en_passant_window_is_one_reply() {
    let mut board = make_board();
    play(&mut board, Color::White, mv(0, 1, 0, 2)); // a2-a3
    play(&mut board, Color::Black, mv(3, 6, 3, 4)); // d7-d5
    play(&mut board, Color::White, mv(0, 2, 0, 3)); // a3-a4
    play(&mut board, Color::Black, mv(3, 4, 3, 3)); // d5-d4
    play(&mut board, Color::White, mv(4, 1, 4, 3)); // e2-e4
    // Black ignores the capture; the window closes.
    play(&mut board, Color::Black, mv(7, 6, 7, 5)); // h7-h6
    assert_eq!(board.en_pessant, Position { x: -1, y: -1 });
    play(&mut board, Color::White, mv(0, 3, 0, 4)); // a4-a5
    let black_moves = board.get_all_moves(Color::Black);
    assert!(!contains(&black_moves, mv(3, 3, 4, 2)));
}

#[test]
fn castling_moves_generated_and_applied() {
    let mut board = make_board();
    let blank = Piece { piece_type: PieceType::Empty, color: Color::Empty };
    // Empty the squares between the white king and both rooks.
    board.put_piece(Position { x: 1, y: 0 }, blank);
    board.put_piece(Position { x: 2, y: 0 }, blank);
    board.put_piece(Position { x: 3, y: 0 }, blank);
    board.put_piece(Position { x: 5, y: 0 }, blank);
    board.put_piece(Position { x: 6, y: 0 }, blank);
    assert!(board.white_kingside && board.white_queenside);
    let moves = board.get_all_moves(Color::White);
    assert!(contains(&moves, mv(4, 0, 6, 0)), "king-side castle missing");
    assert!(contains(&moves, mv(4, 0, 2, 0)), "queen-side castle missing");
    board.make_move(mv(4, 0, 6, 0));
    // The king sits on g1, the h1 rook on f1, and both rights are gone.
    assert_eq!(board.white_king, Position { x: 6, y: 0 });
    assert_eq!(board.get_piece(Position { x: 6, y: 0 }).piece_type, PieceType::King);
    let f1 = board.get_piece(Position { x: 5, y: 0 });
    assert_eq!(f1.piece_type, PieceType::Rook);
    assert_eq!(f1.color, Color::White);
    assert_eq!(board.get_piece(Position { x: 7, y: 0 }).piece_type, PieceType::Empty);
    assert!(!board.white_kingside);
    assert!(!board.white_queenside);
}

#[test]
fn rook_move_forfeits_castle_right() {
    let mut board = make_board();
    play(&mut board, Color::White, mv(0, 1, 0, 3)); // a2-a4
    play(&mut board, Color::Black, mv(0, 6, 0, 4)); // a7-a5
    play(&mut board, Color::White, mv(0, 0, 0, 1)); // Ra1-a2
    assert!(!board.white_queenside);
    assert!(board.white_kingside);
    play(&mut board, Color::Black, mv(0, 7, 0, 5)); // Ra8-a6
    assert!(!board.black_queenside);
    assert!(board.black_kingside);
}

#[test]
fn pawn_promotes_to_queen_on_last_rank() {
    let mut board = make_board();
    let blank = Piece { piece_type: PieceType::Empty, color: Color::Empty };
    // Clear b7 and b8, put a white pawn on b7 and march it home.
    board.put_piece(Position { x: 1, y: 6 }, blank);
    board.put_piece(
        Position { x: 1, y: 7 },
        Piece { piece_type: PieceType::Empty, color: Color::Empty },
    );
    board.put_piece(
        Position { x: 1, y: 6 },
        Piece { piece_type: PieceType::Pawn, color: Color::White },
    );
    let moves = board.get_all_moves(Color::White);
    assert!(contains(&moves, mv(1, 6, 1, 7)));
    board.make_move(mv(1, 6, 1, 7));
    let b8 = board.get_piece(Position { x: 1, y: 7 });
    assert_eq!(b8.piece_type, PieceType::Queen);
    assert_eq!(b8.color, Color::White);
}

#[test]
fn fools_mate_is_checkmate() {
    let mut board = make_board();
    play(&mut board, Color::White, mv(5, 1, 5, 2)); // f2-f3
    play(&mut board, Color::Black, mv(4, 6, 4, 4)); // e7-e5
    play(&mut board, Color::White, mv(6, 1, 6, 3)); // g2-g4
    play(&mut board, Color::Black, mv(3, 7, 7, 3)); // Qd8-h4 mate
    assert!(board.checkp(board.white_king));
    assert!(board.get_all_moves(Color::White).is_empty());
    assert!(board.checkmatep(Color::White));
    assert!(!board.checkmatep(Color::Black));
}

#[test]
fn empty_source_square_is_a_no_op() {
    let mut board = make_board();
    let before = board.get_all_moves(Color::White);
    board.make_move(mv(4, 3, 4, 4)); // nothing stands on e4
    let after = board.get_all_moves(Color::White);
    assert_eq!(before, after);
    assert_eq!(board.get_piece(Position { x: 4, y: 4 }).piece_type, PieceType::Empty);
}

/// An empty board with only the two kings placed (far apart), so single
/// pieces can be dropped on it square by square.
fn bare_kings() -> Board {
    let mut board = make_board();
    let blank = Piece { piece_type: PieceType::Empty, color: Color::Empty };
    for x in 0..8 {
        for y in 0..8 {
            board.put_piece(Position { x, y }, blank);
        }
    }
    board.put_piece(
        Position { x: 7, y: 0 },
        Piece { piece_type: PieceType::King, color: Color::White },
    );
    board.put_piece(
        Position { x: 7, y: 7 },
        Piece { piece_type: PieceType::King, color: Color::Black },
    );
    board.white_king = Position { x: 7, y: 0 };
    board.black_king = Position { x: 7, y: 7 };
    board.white_kingside = false;
    board.white_queenside = false;
    board.black_kingside = false;
    board.black_queenside = false;
    board
}

#[test]
fn slider_attacks_stop_at_first_occupied_square() {
    let mut board = bare_kings();
    board.put_piece(
        Position { x: 4, y: 4 },
        Piece { piece_type: PieceType::King, color: Color::White },
    );
    board.white_king = Position { x: 4, y: 4 };
    board.put_piece(
        Position { x: 7, y: 0 },
        Piece { piece_type: PieceType::Empty, color: Color::Empty },
    );
    board.put_piece(
        Position { x: 4, y: 7 },
        Piece { piece_type: PieceType::Rook, color: Color::Black },
    );
    assert!(board.checkp(Position { x: 4, y: 4 }));
    // A blocker on the ray shields the king.
    board.put_piece(
        Position { x: 4, y: 6 },
        Piece { piece_type: PieceType::Pawn, color: Color::White },
    );
    assert!(!board.checkp(Position { x: 4, y: 4 }));
    // A bishop does not attack down a file; a queen does.
    board.put_piece(
        Position { x: 4, y: 6 },
        Piece { piece_type: PieceType::Empty, color: Color::Empty },
    );
    board.put_piece(
        Position { x: 4, y: 7 },
        Piece { piece_type: PieceType::Bishop, color: Color::Black },
    );
    assert!(!board.checkp(Position { x: 4, y: 4 }));
    board.put_piece(
        Position { x: 4, y: 7 },
        Piece { piece_type: PieceType::Queen, color: Color::Black },
    );
    assert!(board.checkp(Position { x: 4, y: 4 }));
}

#[test]
fn knight_and_pawn_attacks_use_their_offsets() {
    let mut board = bare_kings();
    board.put_piece(
        Position { x: 4, y: 4 },
        Piece { piece_type: PieceType::King, color: Color::White },
    );
    board.white_king = Position { x: 4, y: 4 };
    board.put_piece(
        Position { x: 7, y: 0 },
        Piece { piece_type: PieceType::Empty, color: Color::Empty },
    );
    board.put_piece(
        Position { x: 5, y: 6 },
        Piece { piece_type: PieceType::Knight, color: Color::Black },
    );
    assert!(board.checkp(Position { x: 4, y: 4 }));
    board.put_piece(
        Position { x: 5, y: 6 },
        Piece { piece_type: PieceType::Empty, color: Color::Empty },
    );
    // A black pawn attacks the white king from the rank above...
    board.put_piece(
        Position { x: 3, y: 5 },
        Piece { piece_type: PieceType::Pawn, color: Color::Black },
    );
    assert!(board.checkp(Position { x: 4, y: 4 }));
    // ...but not from the rank below.
    board.put_piece(
        Position { x: 3, y: 5 },
        Piece { piece_type: PieceType::Empty, color: Color::Empty },
    );
    board.put_piece(
        Position { x: 3, y: 3 },
        Piece { piece_type: PieceType::Pawn, color: Color::Black },
    );
    assert!(!board.checkp(Position { x: 4, y: 4 }));
}

#[test]
fn rook_moves_walk_to_blockers_and_captures() {
    let mut board = bare_kings();
    board.put_piece(
        Position { x: 3, y: 3 },
        Piece { piece_type: PieceType::Rook, color: Color::White },
    );
    board.put_piece(
        Position { x: 3, y: 6 },
        Piece { piece_type: PieceType::Pawn, color: Color::Black },
    );
    board.put_piece(
        Position { x: 1, y: 3 },
        Piece { piece_type: PieceType::Pawn, color: Color::White },
    );
    let moves = board.get_moves(Position { x: 3, y: 3 });
    // Up the file: d5, d6, and the capture on d7; down the file: d3, d2, d1.
    assert!(contains(&moves, mv(3, 3, 3, 4)));
    assert!(contains(&moves, mv(3, 3, 3, 5)));
    assert!(contains(&moves, mv(3, 3, 3, 6)));
    assert!(!contains(&moves, mv(3, 3, 3, 7)));
    // Left: only c4 — the own pawn on b4 blocks and cannot be taken.
    assert!(contains(&moves, mv(3, 3, 2, 3)));
    assert!(!contains(&moves, mv(3, 3, 1, 3)));
    // Right: e4, f4, g4, h4.
    assert_eq!(moves.len(), 3 + 3 + 1 + 4);
}

#[test]
fn knight_moves_clipped_at_the_edge() {
    let mut board = bare_kings();
    board.put_piece(
        Position { x: 0, y: 0 },
        Piece { piece_type: PieceType::Knight, color: Color::White },
    );
    let moves = board.get_moves(Position { x: 0, y: 0 });
    assert_eq!(moves.len(), 2);
    assert!(contains(&moves, mv(0, 0, 1, 2)));
    assert!(contains(&moves, mv(0, 0, 2, 1)));
}

#[test]
fn king_steps_avoid_attacked_squares() {
    let mut board = bare_kings();
    // A black rook on the e-file keeps the white king off it.
    board.put_piece(
        Position { x: 4, y: 7 },
        Piece { piece_type: PieceType::Rook, color: Color::Black },
    );
    board.put_piece(
        Position { x: 7, y: 0 },
        Piece { piece_type: PieceType::Empty, color: Color::Empty },
    );
    board.put_piece(
        Position { x: 3, y: 0 },
        Piece { piece_type: PieceType::King, color: Color::White },
    );
    board.white_king = Position { x: 3, y: 0 };
    let moves = board.get_all_moves(Color::White);
    assert!(!contains(&moves, mv(3, 0, 4, 0)));
    assert!(!contains(&moves, mv(3, 0, 4, 1)));
    assert!(contains(&moves, mv(3, 0, 2, 0)));
    assert!(contains(&moves, mv(3, 0, 3, 1)));
}

#[test]
fn pinned_piece_may_not_expose_the_king() {
    let mut board = bare_kings();
    board.put_piece(
        Position { x: 7, y: 0 },
        Piece { piece_type: PieceType::Empty, color: Color::Empty },
    );
    board.put_piece(
        Position { x: 4, y: 0 },
        Piece { piece_type: PieceType::King, color: Color::White },
    );
    board.white_king = Position { x: 4, y: 0 };
    // A white knight on e2 is pinned by the black rook on e8.
    board.put_piece(
        Position { x: 4, y: 1 },
        Piece { piece_type: PieceType::Knight, color: Color::White },
    );
    board.put_piece(
        Position { x: 4, y: 7 },
        Piece { piece_type: PieceType::Rook, color: Color::Black },
    );
    let moves = board.get_all_moves(Color::White);
    for m in &moves {
        assert_ne!(
            (m.start.x, m.start.y),
            (4, 1),
            "the pinned knight must have no legal move"
        );
    }
}
