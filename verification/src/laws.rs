//! The laws the library states of itself, proved once for every board:
//! every generated move keeps the mover's own king safe, the root search
//! is a function of its arguments, and the pruned alpha-beta search
//! agrees with an unpruned full-window minimax.

use vstd::prelude::*;
use crate::board::{
    Board, BoardModel, grid_wf, kings_on_board, kings_placed, lemma_make_move_kings,
    lemma_set_at_at, lemma_set_at_wf, moves_valid, spec_all_moves, spec_all_moves_from,
    spec_checkmate, spec_filter_legal, spec_is_double_push, spec_keep_move, spec_make_move,
    spec_move_spares_kings, spec_square_moves,
};
use crate::color::{Color, spec_opponent};
use crate::engine::{spec_ab, spec_ab_loop, spec_abt, spec_abt_loop, spec_search_depth};
use crate::evaluator;
use crate::evaluator::{lemma_evaluate_antisymmetric, spec_clamp, spec_evaluate};
use crate::move_::Move;
use crate::piece_type::PieceType;
use crate::position::{Position, spec_valid};

verus! {

// ------------------------------------------------------------------
// Move legality: nothing the generator returns exposes its own king.
// ------------------------------------------------------------------

/// Every move the king-safety filter lets through satisfies the very
/// predicate it filters by.
proof fn lemma_filter_keep(m: BoardModel, c: Color, s: Seq<Move>)
    ensures
        forall|j: int|
            0 <= j < spec_filter_legal(m, c, s).len() ==> spec_keep_move(
                m,
                c,
                #[trigger] spec_filter_legal(m, c, s)[j],
            ),
    decreases s.len(),
{
    if s.len() > 0 {
        lemma_filter_keep(m, c, s.drop_first());
        let f = spec_filter_legal(m, c, s);
        let rest = spec_filter_legal(m, c, s.drop_first());
        assert forall|j: int| 0 <= j < f.len() implies spec_keep_move(m, c, f[j]) by {
            if spec_keep_move(m, c, s.first()) {
                if j > 0 {
                    assert(f[j] == rest[j - 1]);
                }
            } else {
                assert(f[j] == rest[j]);
            }
        }
    }
}

/// Every move one square contributes is safe for the mover's king.
proof fn lemma_square_safe(m: BoardModel, c: Color, x: int, y: int)
    ensures
        forall|j: int|
            0 <= j < spec_square_moves(m, c, x, y).len() ==> spec_keep_move(
                m,
                c,
                #[trigger] spec_square_moves(m, c, x, y)[j],
            ),
{
    if m.at(x, y).color == c {
        lemma_filter_keep(
            m,
            c,
            crate::board::spec_moves(m, Position { x: x as isize, y: y as isize }),
        );
    }
}

/// Every move the square scan contributes from (x, y) on is safe.
proof fn lemma_all_moves_from_safe(m: BoardModel, c: Color, x: int, y: int)
    requires
        0 <= x <= 8,
        0 <= y <= 8,
    ensures
        forall|j: int|
            0 <= j < spec_all_moves_from(m, c, x, y).len() ==> spec_keep_move(
                m,
                c,
                #[trigger] spec_all_moves_from(m, c, x, y)[j],
            ),
    decreases 8 - x, 8 - y,
{
    if x >= 8 {
    } else if y >= 8 {
        lemma_all_moves_from_safe(m, c, x + 1, 0);
        assert(spec_all_moves_from(m, c, x, y) == spec_all_moves_from(m, c, x + 1, 0));
    } else {
        lemma_square_safe(m, c, x, y);
        lemma_all_moves_from_safe(m, c, x, y + 1);
        let whole = spec_all_moves_from(m, c, x, y);
        let sq = spec_square_moves(m, c, x, y);
        let rest = spec_all_moves_from(m, c, x, y + 1);
        assert(whole == sq + rest);
        assert forall|j: int| 0 <= j < whole.len() implies spec_keep_move(m, c, whole[j]) by {
            if j < sq.len() {
                assert(whole[j] == sq[j]);
            } else {
                assert(whole[j] == rest[j - sq.len()]);
            }
        }
    }
}

/// The central legality invariant: applying any move of
/// `spec_all_moves(m, c)` to the board leaves a board whose king square
/// for that colour is not attacked.
pub proof fn lemma_all_moves_safe(m: BoardModel, c: Color)
    ensures
        forall|j: int|
            0 <= j < spec_all_moves(m, c).len() ==> spec_keep_move(
                m,
                c,
                #[trigger] spec_all_moves(m, c)[j],
            ),
{
    lemma_all_moves_from_safe(m, c, 0, 0);
}

// ------------------------------------------------------------------
// Side-state invariants of move application.
// ------------------------------------------------------------------

/// The en-passant target lives for exactly one reply: any move that does
/// anything at all leaves the target set to its own destination if it
/// was a two-square pawn advance, and cleared to the sentinel otherwise.
pub proof fn lemma_en_passant_one_reply(m: BoardModel, mv: Move)
    ensures
        ({
            let p = m.at(mv.start.x as int, mv.start.y as int);
            let after = spec_make_move(m, mv);
            p.piece_type != PieceType::Empty ==> after.en_pessant == (if spec_is_double_push(
                mv,
                p,
            ) {
                mv.end
            } else {
                Position { x: -1isize, y: -1isize }
            })
        }),
{
}

/// The cached king squares keep tracking the kings on the grid: a move
/// of ordinary play — one that clobbers no king it does not carry
/// (`spec_move_spares_kings`) — leaves each cache holding its king,
/// re-cached at the destination when the king itself moved.
pub proof fn lemma_make_move_keeps_kings_placed(m: BoardModel, mv: Move)
    requires
        grid_wf(m),
        kings_on_board(m),
        spec_valid(mv.start),
        spec_valid(mv.end),
        mv.start != mv.end,
        kings_placed(m),
        spec_move_spares_kings(m, mv),
    ensures
        kings_placed(spec_make_move(m, mv)),
{
    broadcast use lemma_set_at_at, lemma_set_at_wf;

    let p = m.at(mv.start.x as int, mv.start.y as int);
    let after = spec_make_move(m, mv);
    if p.piece_type != PieceType::Empty {
        if p.piece_type == PieceType::King {
            if p.color == Color::White {
                assert(after.white_king == mv.end);
                assert(after.black_king == m.black_king);
            } else {
                assert(after.black_king == mv.end);
                assert(after.white_king == m.white_king);
            }
        } else {
            assert(after.white_king == m.white_king);
            assert(after.black_king == m.black_king);
        }
    }
}

/// A castling right once lost never returns: no move application turns
/// any of the four flags back on.
pub proof fn lemma_castle_rights_monotone(m: BoardModel, mv: Move)
    ensures
        !m.white_kingside ==> !spec_make_move(m, mv).white_kingside,
        !m.white_queenside ==> !spec_make_move(m, mv).white_queenside,
        !m.black_kingside ==> !spec_make_move(m, mv).black_kingside,
        !m.black_queenside ==> !spec_make_move(m, mv).black_queenside,
{
}

// ------------------------------------------------------------------
// Search determinism: a root pass is a function of its arguments.
// ------------------------------------------------------------------

/// Two root passes over the same board, side, depth and running best
/// answer with the same move and score: `search_depth`'s contract pins
/// each answer to `spec_search_depth` of the arguments alone, so two
/// runs cannot differ.
pub proof fn lemma_search_deterministic(
    m: BoardModel,
    c: Color,
    depth: int,
    mv0: Move,
    score0: int,
    r1: (Move, int),
    r2: (Move, int),
)
    requires
        r1.0 == spec_search_depth(m, c, depth, mv0, score0).best,
        r1.1 == spec_search_depth(m, c, depth, mv0, score0).score,
        r2.0 == spec_search_depth(m, c, depth, mv0, score0).best,
        r2.1 == spec_search_depth(m, c, depth, mv0, score0).score,
    ensures
        r1 == r2,
{
}

// ------------------------------------------------------------------
// Alpha-beta agrees with full-window minimax.
// ------------------------------------------------------------------

/// The minimax fold over the legal moves from index `i` on: each child
/// is valued one ply deeper with the roles swapped; no window, no
/// pruning.
pub open spec fn spec_mm_loop(
    m: BoardModel,
    moves: Seq<Move>,
    i: int,
    depth: int,
    best: int,
    maxing: bool,
    c: Color,
) -> int
    decreases depth, 0int, moves.len() - i,
    when depth >= 1 && 0 <= i <= moves.len()
{
    if i >= moves.len() {
        best
    } else {
        let v = spec_minimax(spec_make_move(m, moves[i]), depth - 1, !maxing, spec_opponent(c));
        let best2 = if maxing {
            if v > best {
                v
            } else {
                best
            }
        } else {
            if v < best {
                v
            } else {
                best
            }
        };
        spec_mm_loop(m, moves, i + 1, depth, best2, maxing, c)
    }
}

/// Unpruned minimax: the same terminals as `spec_ab` — the mate
/// sentinel, then the (sign-adjusted) static evaluation at depth zero —
/// and the plain best-child fold everywhere else.
pub open spec fn spec_minimax(m: BoardModel, depth: int, maxing: bool, c: Color) -> int
    decreases depth, 1int, 0int,
    when depth >= 0
{
    if spec_checkmate(m, c) {
        if maxing {
            -32768int
        } else {
            32767int
        }
    } else if depth == 0 {
        if maxing {
            spec_clamp(spec_evaluate(m, c))
        } else {
            -spec_clamp(spec_evaluate(m, c))
        }
    } else {
        spec_mm_loop(
            m,
            spec_all_moves(m, c),
            0,
            depth,
            if maxing {
                -32768int
            } else {
                32767int
            },
            maxing,
            c,
        )
    }
}

/// The minimax fold stays in the sentinel range and never retreats from
/// its accumulator.
proof fn lemma_mm_loop_props(
    m: BoardModel,
    moves: Seq<Move>,
    i: int,
    depth: int,
    best: int,
    maxing: bool,
    c: Color,
)
    requires
        depth >= 1,
        0 <= i <= moves.len(),
        -32768 <= best <= 32767,
    ensures
        -32768 <= spec_mm_loop(m, moves, i, depth, best, maxing, c) <= 32767,
        maxing ==> spec_mm_loop(m, moves, i, depth, best, maxing, c) >= best,
        !maxing ==> spec_mm_loop(m, moves, i, depth, best, maxing, c) <= best,
    decreases depth, 0int, moves.len() - i,
{
    if i < moves.len() {
        let v = spec_minimax(spec_make_move(m, moves[i]), depth - 1, !maxing, spec_opponent(c));
        lemma_minimax_bounds(spec_make_move(m, moves[i]), depth - 1, !maxing, spec_opponent(c));
        let best2 = if maxing {
            if v > best {
                v
            } else {
                best
            }
        } else {
            if v < best {
                v
            } else {
                best
            }
        };
        lemma_mm_loop_props(m, moves, i + 1, depth, best2, maxing, c);
    }
}

/// The minimax value of any node lies in the sentinel range.
pub proof fn lemma_minimax_bounds(m: BoardModel, depth: int, maxing: bool, c: Color)
    requires
        depth >= 0,
    ensures
        -32768 <= spec_minimax(m, depth, maxing, c) <= 32767,
    decreases depth, 1int, 0int,
{
    if !spec_checkmate(m, c) && depth != 0 {
        lemma_mm_loop_props(
            m,
            spec_all_moves(m, c),
            0,
            depth,
            if maxing {
                -32768int
            } else {
                32767int
            },
            maxing,
            c,
        );
    }
}

/// The alpha-beta loop's score stays in the sentinel range.
proof fn lemma_ab_loop_bounds(
    m: BoardModel,
    moves: Seq<Move>,
    i: int,
    depth: int,
    a: int,
    b: int,
    best: int,
    maxing: bool,
    c: Color,
)
    requires
        depth >= 1,
        0 <= i <= moves.len(),
        -32768 <= best <= 32767,
    ensures
        -32768 <= spec_ab_loop(m, moves, i, depth, a, b, best, maxing, c).score <= 32767,
    decreases depth, 0int, moves.len() - i,
{
    if i < moves.len() {
        let child = spec_ab(spec_make_move(m, moves[i]), depth - 1, a, b, !maxing, spec_opponent(c));
        lemma_ab_bounds(spec_make_move(m, moves[i]), depth - 1, a, b, !maxing, spec_opponent(c));
        if maxing {
            let best2 = if child.score > best {
                child.score
            } else {
                best
            };
            let a2 = if best2 > a {
                best2
            } else {
                a
            };
            if !(best2 >= b) {
                lemma_ab_loop_bounds(m, moves, i + 1, depth, a2, b, best2, maxing, c);
            }
        } else {
            let best2 = if child.score < best {
                child.score
            } else {
                best
            };
            let b2 = if best2 < b {
                best2
            } else {
                b
            };
            if !(best2 <= a) {
                lemma_ab_loop_bounds(m, moves, i + 1, depth, a, b2, best2, maxing, c);
            }
        }
    }
}

/// The alpha-beta score of any node lies in the sentinel range.
pub proof fn lemma_ab_bounds(m: BoardModel, depth: int, al: int, be: int, maxing: bool, c: Color)
    requires
        depth >= 0,
    ensures
        -32768 <= spec_ab(m, depth, al, be, maxing, c).score <= 32767,
    decreases depth, 1int, 0int,
{
    if !spec_checkmate(m, c) && depth != 0 {
        lemma_ab_loop_bounds(
            m,
            spec_all_moves(m, c),
            0,
            depth,
            al,
            be,
            if maxing {
                -32768int
            } else {
                32767int
            },
            maxing,
            c,
        );
    }
}

/// The maximiser's alpha-beta loop against the minimax fold: inside the
/// window the scores agree; failing low the loop's answer bounds the
/// true value from above; failing high, from below.
proof fn lemma_ab_mm_loop_max(
    m: BoardModel,
    moves: Seq<Move>,
    i: int,
    depth: int,
    a0: int,
    b: int,
    a: int,
    best: int,
    vbest: int,
    c: Color,
)
    requires
        depth >= 1,
        0 <= i <= moves.len(),
        -32768 <= a0,
        b <= 32767,
        a0 < b,
        -32768 <= best <= 32767,
        -32768 <= vbest <= 32767,
        a == (if best > a0 {
            best
        } else {
            a0
        }),
        best < b,
        best <= a0 ==> vbest <= best,
        best > a0 ==> vbest == best,
    ensures
        a0 < spec_ab_loop(m, moves, i, depth, a, b, best, true, c).score < b ==> spec_ab_loop(
            m,
            moves,
            i,
            depth,
            a,
            b,
            best,
            true,
            c,
        ).score == spec_mm_loop(m, moves, i, depth, vbest, true, c),
        spec_ab_loop(m, moves, i, depth, a, b, best, true, c).score <= a0 ==> spec_mm_loop(
            m,
            moves,
            i,
            depth,
            vbest,
            true,
            c,
        ) <= spec_ab_loop(m, moves, i, depth, a, b, best, true, c).score,
        spec_ab_loop(m, moves, i, depth, a, b, best, true, c).score >= b ==> spec_mm_loop(
            m,
            moves,
            i,
            depth,
            vbest,
            true,
            c,
        ) >= spec_ab_loop(m, moves, i, depth, a, b, best, true, c).score,
    decreases depth, 0int, moves.len() - i,
{
    if i < moves.len() {
        let mnext = spec_make_move(m, moves[i]);
        let o = spec_opponent(c);
        let child = spec_ab(mnext, depth - 1, a, b, false, o);
        let vc = spec_minimax(mnext, depth - 1, false, o);
        lemma_ab_minimax(mnext, depth - 1, a, b, false, o);
        lemma_ab_bounds(mnext, depth - 1, a, b, false, o);
        lemma_minimax_bounds(mnext, depth - 1, false, o);
        let best2 = if child.score > best {
            child.score
        } else {
            best
        };
        let vbest2 = if vc > vbest {
            vc
        } else {
            vbest
        };
        let a2 = if best2 > a {
            best2
        } else {
            a
        };
        if best2 >= b {
            lemma_mm_loop_props(m, moves, i + 1, depth, vbest2, true, c);
        } else {
            lemma_ab_mm_loop_max(m, moves, i + 1, depth, a0, b, a2, best2, vbest2, c);
        }
    }
}

/// The minimiser's side of `lemma_ab_mm_loop_max`, mirrored.
proof fn lemma_ab_mm_loop_min(
    m: BoardModel,
    moves: Seq<Move>,
    i: int,
    depth: int,
    a: int,
    b0: int,
    b: int,
    best: int,
    vbest: int,
    c: Color,
)
    requires
        depth >= 1,
        0 <= i <= moves.len(),
        -32768 <= a,
        b0 <= 32767,
        a < b0,
        -32768 <= best <= 32767,
        -32768 <= vbest <= 32767,
        b == (if best < b0 {
            best
        } else {
            b0
        }),
        best > a,
        best >= b0 ==> vbest >= best,
        best < b0 ==> vbest == best,
    ensures
        a < spec_ab_loop(m, moves, i, depth, a, b, best, false, c).score < b0 ==> spec_ab_loop(
            m,
            moves,
            i,
            depth,
            a,
            b,
            best,
            false,
            c,
        ).score == spec_mm_loop(m, moves, i, depth, vbest, false, c),
        spec_ab_loop(m, moves, i, depth, a, b, best, false, c).score >= b0 ==> spec_mm_loop(
            m,
            moves,
            i,
            depth,
            vbest,
            false,
            c,
        ) >= spec_ab_loop(m, moves, i, depth, a, b, best, false, c).score,
        spec_ab_loop(m, moves, i, depth, a, b, best, false, c).score <= a ==> spec_mm_loop(
            m,
            moves,
            i,
            depth,
            vbest,
            false,
            c,
        ) <= spec_ab_loop(m, moves, i, depth, a, b, best, false, c).score,
    decreases depth, 0int, moves.len() - i,
{
    if i < moves.len() {
        let mnext = spec_make_move(m, moves[i]);
        let o = spec_opponent(c);
        let child = spec_ab(mnext, depth - 1, a, b, true, o);
        let vc = spec_minimax(mnext, depth - 1, true, o);
        lemma_ab_minimax(mnext, depth - 1, a, b, true, o);
        lemma_ab_bounds(mnext, depth - 1, a, b, true, o);
        lemma_minimax_bounds(mnext, depth - 1, true, o);
        let best2 = if child.score < best {
            child.score
        } else {
            best
        };
        let vbest2 = if vc < vbest {
            vc
        } else {
            vbest
        };
        let b2 = if best2 < b {
            best2
        } else {
            b
        };
        if best2 <= a {
            lemma_mm_loop_props(m, moves, i + 1, depth, vbest2, false, c);
        } else {
            lemma_ab_mm_loop_min(m, moves, i + 1, depth, a, b0, b2, best2, vbest2, c);
        }
    }
}

/// The fail-soft window theorem: within (al, be) alpha-beta returns the
/// minimax value exactly; at or below `al` it bounds the value from
/// above; at or above `be`, from below.
pub proof fn lemma_ab_minimax(m: BoardModel, depth: int, al: int, be: int, maxing: bool, c: Color)
    requires
        depth >= 0,
        -32768 <= al,
        be <= 32767,
        al < be,
    ensures
        al < spec_ab(m, depth, al, be, maxing, c).score < be ==> spec_ab(
            m,
            depth,
            al,
            be,
            maxing,
            c,
        ).score == spec_minimax(m, depth, maxing, c),
        spec_ab(m, depth, al, be, maxing, c).score <= al ==> spec_minimax(m, depth, maxing, c)
            <= spec_ab(m, depth, al, be, maxing, c).score,
        spec_ab(m, depth, al, be, maxing, c).score >= be ==> spec_minimax(m, depth, maxing, c)
            >= spec_ab(m, depth, al, be, maxing, c).score,
    decreases depth, 1int, 0int,
{
    if !spec_checkmate(m, c) && depth != 0 {
        let moves = spec_all_moves(m, c);
        if maxing {
            lemma_ab_mm_loop_max(m, moves, 0, depth, al, be, al, -32768, -32768, c);
        } else {
            lemma_ab_mm_loop_min(m, moves, 0, depth, al, be, be, 32767, 32767, c);
        }
    }
}

/// Alpha-beta equivalence: over the full window the pruned search's
/// score equals the unpruned minimax value, at every node and depth.
pub proof fn lemma_alphabeta_minimax(m: BoardModel, depth: int, maxing: bool, c: Color)
    requires
        depth >= 0,
    ensures
        spec_ab(m, depth, -32768, 32767, maxing, c).score == spec_minimax(m, depth, maxing, c),
{
    lemma_ab_minimax(m, depth, -32768, 32767, maxing, c);
    lemma_ab_bounds(m, depth, -32768, 32767, maxing, c);
    lemma_minimax_bounds(m, depth, maxing, c);
}

/// The unpruned full-window minimax search, as `spec_minimax` describes:
/// the reference that `lemma_alphabeta_minimax` holds the pruned search
/// to, runnable so the agreement can also be watched on concrete boards.
pub fn minimax(board: Board, depth: u8, max: bool, color: Color) -> (r: i16)
    requires
        kings_on_board(board@),
    ensures
        r as int == spec_minimax(board@, depth as int, max, color),
    decreases depth,
{
    if board.checkmatep(color) {
        return if max {
            -32768
        } else {
            32767
        };
    }
    if depth == 0 {
        let e = evaluator::evaluate(board, color);
        proof {
            assert(spec_minimax(board@, depth as int, max, color) == if max {
                spec_clamp(spec_evaluate(board@, color))
            } else {
                -spec_clamp(spec_evaluate(board@, color))
            });
            assert(-32767 <= e as int <= 32767);
        }
        return if max {
            e
        } else {
            -e
        };
    }
    let moves = board.get_all_moves(color);
    let op = color.opponent_color();
    let ghost m = board@;
    let ghost d = depth as int;
    let ghost init: int = if max {
        -32768int
    } else {
        32767int
    };
    let mut best: i16 = if max {
        -32768
    } else {
        32767
    };
    let mut i: usize = 0;
    while i < moves.len()
        invariant
            i <= moves.len(),
            kings_on_board(m),
            board@ == m,
            moves_valid(moves@),
            moves@ == spec_all_moves(m, color),
            !spec_checkmate(m, color),
            depth >= 1,
            d == depth as int,
            op == spec_opponent(color),
            init == if max {
                -32768int
            } else {
                32767int
            },
            spec_mm_loop(m, moves@, 0, d, init, max, color) == spec_mm_loop(
                m,
                moves@,
                i as int,
                d,
                best as int,
                max,
                color,
            ),
        decreases moves.len() - i,
    {
        let ghost i0 = i as int;
        let ghost best0 = best as int;
        let mv = moves[i];
        let mut nb: Board = board;
        nb.make_move(mv);
        proof {
            lemma_make_move_kings(m, mv);
        }
        let v = minimax(nb, depth - 1, !max, op);
        proof {
            assert(nb@ == spec_make_move(m, moves@[i0]));
        }
        if max {
            if v > best {
                best = v;
            }
        } else {
            if v < best {
                best = v;
            }
        }
        proof {
            assert(spec_mm_loop(m, moves@, i0, d, best0, max, color) == spec_mm_loop(
                m,
                moves@,
                i0 + 1,
                d,
                best as int,
                max,
                color,
            ));
        }
        i = i + 1;
    }
    best
}

/// The tracing loop's score stays in the sentinel range.
proof fn lemma_abt_loop_bounds(
    m: BoardModel,
    moves: Seq<Move>,
    i: int,
    depth: int,
    a: int,
    b: int,
    best: int,
    retb: BoardModel,
    c: Color,
    maxing: bool,
)
    requires
        depth >= 1,
        0 <= i <= moves.len(),
        -32768 <= best <= 32767,
    ensures
        -32768 <= spec_abt_loop(m, moves, i, depth, a, b, best, retb, maxing, c).score <= 32767,
    decreases depth, 0int, moves.len() - i,
{
    if i < moves.len() {
        let mnext = spec_make_move(m, moves[i]);
        let o = spec_opponent(c);
        let child = spec_abt(mnext, depth - 1, a, b, !maxing, o);
        lemma_abt_bounds(mnext, depth - 1, a, b, !maxing, o);
        if maxing {
            let best2 = if child.score > best {
                child.score
            } else {
                best
            };
            let retb2 = if child.score > best {
                child.leaf
            } else {
                retb
            };
            let a2 = if best2 > a {
                best2
            } else {
                a
            };
            if !(best2 > b) {
                lemma_abt_loop_bounds(m, moves, i + 1, depth, a2, b, best2, retb2, c, maxing);
            }
        } else {
            let best2 = if child.score < best {
                child.score
            } else {
                best
            };
            let retb2 = if child.score < best {
                child.leaf
            } else {
                retb
            };
            let b2 = if best2 < b {
                best2
            } else {
                b
            };
            if !(best2 < a) {
                lemma_abt_loop_bounds(m, moves, i + 1, depth, a, b2, best2, retb2, c, maxing);
            }
        }
    }
}

/// The tracing search's score at any node lies in the sentinel range.
pub proof fn lemma_abt_bounds(m: BoardModel, depth: int, al: int, be: int, maxing: bool, c: Color)
    requires
        depth >= 0,
    ensures
        -32768 <= spec_abt(m, depth, al, be, maxing, c).score <= 32767,
    decreases depth, 1int, 0int,
{
    if !spec_checkmate(m, c) && depth != 0 && spec_all_moves(m, c).len() != 0 {
        let moves = spec_all_moves(m, c);
        lemma_abt_loop_bounds(
            m,
            moves,
            0,
            depth,
            al,
            be,
            if maxing {
                -32768int
            } else {
                32767int
            },
            spec_make_move(m, moves[0]),
            c,
            maxing,
        );
    }
}

/// The maximiser's tracing loop against the minimax fold. Strict pruning
/// lets `best` reach `be` exactly and go on scanning, so the running
/// best is only known to bound the true value from below once it touches
/// the window's top; inside the window the scores still agree.
proof fn lemma_abt_mm_loop_max(
    m: BoardModel,
    moves: Seq<Move>,
    i: int,
    depth: int,
    a0: int,
    b: int,
    a: int,
    best: int,
    vbest: int,
    retb: BoardModel,
    c: Color,
)
    requires
        depth >= 1,
        0 <= i <= moves.len(),
        -32768 <= a0,
        b <= 32767,
        a0 <= b,
        -32768 <= best <= 32767,
        -32768 <= vbest <= 32767,
        a == (if best > a0 {
            best
        } else {
            a0
        }),
        best <= b,
        best <= a0 ==> vbest <= best,
        (a0 < best && best < b) ==> vbest == best,
        best == b ==> vbest >= best,
    ensures
        a0 < spec_abt_loop(m, moves, i, depth, a, b, best, retb, true, c).score < b
            ==> spec_abt_loop(m, moves, i, depth, a, b, best, retb, true, c).score == spec_mm_loop(
            m,
            moves,
            i,
            depth,
            vbest,
            true,
            c,
        ),
        spec_abt_loop(m, moves, i, depth, a, b, best, retb, true, c).score <= a0 ==> spec_mm_loop(
            m,
            moves,
            i,
            depth,
            vbest,
            true,
            c,
        ) <= spec_abt_loop(m, moves, i, depth, a, b, best, retb, true, c).score,
        spec_abt_loop(m, moves, i, depth, a, b, best, retb, true, c).score >= b ==> spec_mm_loop(
            m,
            moves,
            i,
            depth,
            vbest,
            true,
            c,
        ) >= spec_abt_loop(m, moves, i, depth, a, b, best, retb, true, c).score,
    decreases depth, 0int, moves.len() - i,
{
    if i < moves.len() {
        let mnext = spec_make_move(m, moves[i]);
        let o = spec_opponent(c);
        let child = spec_abt(mnext, depth - 1, a, b, false, o);
        let vc = spec_minimax(mnext, depth - 1, false, o);
        lemma_abt_minimax(mnext, depth - 1, a, b, false, o);
        lemma_abt_bounds(mnext, depth - 1, a, b, false, o);
        lemma_minimax_bounds(mnext, depth - 1, false, o);
        let best2 = if child.score > best {
            child.score
        } else {
            best
        };
        let retb2 = if child.score > best {
            child.leaf
        } else {
            retb
        };
        let vbest2 = if vc > vbest {
            vc
        } else {
            vbest
        };
        let a2 = if best2 > a {
            best2
        } else {
            a
        };
        if best2 > b {
            lemma_mm_loop_props(m, moves, i + 1, depth, vbest2, true, c);
        } else {
            lemma_abt_mm_loop_max(m, moves, i + 1, depth, a0, b, a2, best2, vbest2, retb2, c);
        }
    }
}

/// The minimiser's side of `lemma_abt_mm_loop_max`, mirrored.
proof fn lemma_abt_mm_loop_min(
    m: BoardModel,
    moves: Seq<Move>,
    i: int,
    depth: int,
    a: int,
    b0: int,
    b: int,
    best: int,
    vbest: int,
    retb: BoardModel,
    c: Color,
)
    requires
        depth >= 1,
        0 <= i <= moves.len(),
        -32768 <= a,
        b0 <= 32767,
        a <= b0,
        -32768 <= best <= 32767,
        -32768 <= vbest <= 32767,
        b == (if best < b0 {
            best
        } else {
            b0
        }),
        best >= a,
        best >= b0 ==> vbest >= best,
        (a < best && best < b0) ==> vbest == best,
        best == a ==> vbest <= best,
    ensures
        a < spec_abt_loop(m, moves, i, depth, a, b, best, retb, false, c).score < b0
            ==> spec_abt_loop(m, moves, i, depth, a, b, best, retb, false, c).score == spec_mm_loop(
            m,
            moves,
            i,
            depth,
            vbest,
            false,
            c,
        ),
        spec_abt_loop(m, moves, i, depth, a, b, best, retb, false, c).score >= b0 ==> spec_mm_loop(
            m,
            moves,
            i,
            depth,
            vbest,
            false,
            c,
        ) >= spec_abt_loop(m, moves, i, depth, a, b, best, retb, false, c).score,
        spec_abt_loop(m, moves, i, depth, a, b, best, retb, false, c).score <= a ==> spec_mm_loop(
            m,
            moves,
            i,
            depth,
            vbest,
            false,
            c,
        ) <= spec_abt_loop(m, moves, i, depth, a, b, best, retb, false, c).score,
    decreases depth, 0int, moves.len() - i,
{
    if i < moves.len() {
        let mnext = spec_make_move(m, moves[i]);
        let o = spec_opponent(c);
        let child = spec_abt(mnext, depth - 1, a, b, true, o);
        let vc = spec_minimax(mnext, depth - 1, true, o);
        lemma_abt_minimax(mnext, depth - 1, a, b, true, o);
        lemma_abt_bounds(mnext, depth - 1, a, b, true, o);
        lemma_minimax_bounds(mnext, depth - 1, true, o);
        let best2 = if child.score < best {
            child.score
        } else {
            best
        };
        let retb2 = if child.score < best {
            child.leaf
        } else {
            retb
        };
        let vbest2 = if vc < vbest {
            vc
        } else {
            vbest
        };
        let b2 = if best2 < b {
            best2
        } else {
            b
        };
        if best2 < a {
            lemma_mm_loop_props(m, moves, i + 1, depth, vbest2, false, c);
        } else {
            lemma_abt_mm_loop_min(m, moves, i + 1, depth, a, b0, b2, best2, vbest2, retb2, c);
        }
    }
}

/// The window theorem for the tracing search: inside (al, be) its score
/// is the minimax value exactly; at or below `al` it bounds the value
/// from above; at or above `be`, from below. Its depth-zero quirk is no
/// quirk in value: the opponent's evaluation is the negation of one's
/// own (`lemma_evaluate_antisymmetric`).
pub proof fn lemma_abt_minimax(m: BoardModel, depth: int, al: int, be: int, maxing: bool, c: Color)
    requires
        depth >= 0,
        -32768 <= al,
        be <= 32767,
        al <= be,
    ensures
        al < spec_abt(m, depth, al, be, maxing, c).score < be ==> spec_abt(
            m,
            depth,
            al,
            be,
            maxing,
            c,
        ).score == spec_minimax(m, depth, maxing, c),
        spec_abt(m, depth, al, be, maxing, c).score <= al ==> spec_minimax(m, depth, maxing, c)
            <= spec_abt(m, depth, al, be, maxing, c).score,
        spec_abt(m, depth, al, be, maxing, c).score >= be ==> spec_minimax(m, depth, maxing, c)
            >= spec_abt(m, depth, al, be, maxing, c).score,
    decreases depth, 1int, 0int,
{
    if spec_checkmate(m, c) {
    } else if depth == 0 {
        if !maxing {
            lemma_evaluate_antisymmetric(m, c);
        }
    } else if spec_all_moves(m, c).len() == 0 {
    } else {
        let moves = spec_all_moves(m, c);
        let retb0 = spec_make_move(m, moves[0]);
        if maxing {
            lemma_abt_mm_loop_max(m, moves, 0, depth, al, be, al, -32768, -32768, retb0, c);
        } else {
            lemma_abt_mm_loop_min(m, moves, 0, depth, al, be, be, 32767, 32767, retb0, c);
        }
    }
}

/// The tracing search, too, agrees with unpruned minimax over the full
/// window — so the engine's root pass, which scores lines through it,
/// ranks moves by their true minimax values.
pub proof fn lemma_alphabeta_trace_minimax(m: BoardModel, depth: int, maxing: bool, c: Color)
    requires
        depth >= 0,
    ensures
        spec_abt(m, depth, -32768, 32767, maxing, c).score == spec_minimax(m, depth, maxing, c),
{
    lemma_abt_minimax(m, depth, -32768, 32767, maxing, c);
    lemma_abt_bounds(m, depth, -32768, 32767, maxing, c);
    lemma_minimax_bounds(m, depth, maxing, c);
}

} // verus!
