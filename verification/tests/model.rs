use chess_engine::color::Color;
use chess_engine::move_::Move;
use chess_engine::piece::Piece;
use chess_engine::piece_type::PieceType;
use chess_engine::position::Position;

#[test]
fn validp_in_bounds() {
    for x in 0..8 {
        for y in 0..8 {
            assert!(Position { x, y }.validp());
        }
    }
    assert!(!Position { x: -1, y: 0 }.validp());
    assert!(!Position { x: 0, y: -1 }.validp());
    assert!(!Position { x: 8, y: 0 }.validp());
    assert!(!Position { x: 0, y: 8 }.validp());
    assert!(!Position { x: -1, y: -1 }.validp());
}

#[test]
fn directional_steps_on_edges() {
    // Every direction from every edge square either stays on the board or
    // falls exactly one step off it; no step aliases its start.
    for x in 0..8 {
        for y in 0..8 {
            let p = Position { x, y };
            let up = p.up();
            assert_eq!((up.x, up.y), (x, y + 1));
            assert_eq!(up.validp(), y < 7);
            let down = p.down();
            assert_eq!((down.x, down.y), (x, y - 1));
            assert_eq!(down.validp(), y > 0);
            let left = p.left();
            assert_eq!((left.x, left.y), (x - 1, y));
            assert_eq!(left.validp(), x > 0);
            let right = p.right();
            assert_eq!((right.x, right.y), (x + 1, y));
            assert_eq!(right.validp(), x < 7);
            assert_ne!((up.x, up.y), (p.x, p.y));
            assert_ne!((down.x, down.y), (p.x, p.y));
            assert_ne!((left.x, left.y), (p.x, p.y));
            assert_ne!((right.x, right.y), (p.x, p.y));
        }
    }
}

#[test]
fn position_from_string_squares() {
    let p = Position::from_string(String::from("e2"));
    assert_eq!((p.x, p.y), (4, 1));
    let p = Position::from_string(String::from("a1"));
    assert_eq!((p.x, p.y), (0, 0));
    let p = Position::from_string(String::from("h8"));
    assert_eq!((p.x, p.y), (7, 7));
    let p = Position::from_string(String::from("C7"));
    assert_eq!((p.x, p.y), (2, 6));
    // An unknown file letter falls back to file 0.
    let p = Position::from_string(String::from("z4"));
    assert_eq!((p.x, p.y), (0, 3));
}

#[test]
fn color_strings_and_opponents() {
    assert_eq!(Color::White.to_string(), "w");
    assert_eq!(Color::Black.to_string(), "b");
    assert_eq!(Color::Empty.to_string(), "");
    assert_eq!(Color::White.opponent_color(), Color::Black);
    assert_eq!(Color::Black.opponent_color(), Color::White);
    assert_eq!(Color::Empty.opponent_color(), Color::Empty);
}

#[test]
fn piece_fen_strings() {
    let wq = Piece { piece_type: PieceType::Queen, color: Color::White };
    let bn = Piece { piece_type: PieceType::Knight, color: Color::Black };
    let wp = Piece { piece_type: PieceType::Pawn, color: Color::White };
    let empty = Piece { piece_type: PieceType::Empty, color: Color::Empty };
    assert_eq!(wq.fen_string(), "Q");
    assert_eq!(bn.fen_string(), "n");
    assert_eq!(wp.fen_string(), "P");
    assert_eq!(empty.fen_string(), "");
}

#[test]
fn castle_predicates_fixed_squares() {
    let wk = Move { start: Position { x: 4, y: 0 }, end: Position { x: 6, y: 0 } };
    let bk = Move { start: Position { x: 4, y: 7 }, end: Position { x: 6, y: 7 } };
    let wq = Move { start: Position { x: 4, y: 0 }, end: Position { x: 2, y: 0 } };
    let bq = Move { start: Position { x: 4, y: 7 }, end: Position { x: 2, y: 7 } };
    assert!(wk.kingside_castlep());
    assert!(bk.kingside_castlep());
    assert!(!wk.queenside_castlep());
    assert!(wq.queenside_castlep());
    assert!(bq.queenside_castlep());
    assert!(!wq.kingside_castlep());
    let plain = Move { start: Position { x: 4, y: 1 }, end: Position { x: 4, y: 3 } };
    assert!(!plain.kingside_castlep());
    assert!(!plain.queenside_castlep());
}
