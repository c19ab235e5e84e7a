//! The search engine: alpha-beta negamax over the legal-move generator,
//! scored by the evaluator, with a capture-ordering hint. Every search
//! result is pinned to a spec-level recursion, so a search is a function
//! of the board, the window and the depth alone.

use vstd::prelude::*;
use crate::board::{
    Board, BoardModel, kings_on_board, lemma_make_move_kings, moves_valid, spec_all_moves,
    spec_checkmate, spec_make_move,
};
use crate::color::{Color, spec_opponent};
use crate::evaluator;
use crate::evaluator::{spec_clamp, spec_evaluate};
use crate::move_::Move;
use crate::piece_type::PieceType;
use crate::player::Player;
use crate::position::{Position, spec_valid};

verus! {

/// The engine. It carries only a diagnostic counter of positions
/// visited; the search itself is stateless.
pub struct AI {
    pub pos_evaluated: u64,
}

/// A searched line's outcome: the board the line reached and the score
/// the search gave it.
pub struct MoveScore {
    pub board: Board,
    pub score: i16,
}

/// Adding to the visit counter, stopping at the top of its range.
pub open spec fn sat_add64(v: int, n: int) -> int {
    if v + n > u64::MAX {
        u64::MAX as int
    } else {
        v + n
    }
}

/// The capture-ordering hint: most valuable victim, least valuable
/// attacker, read from the pieces on the move's two squares.
pub open spec fn spec_mvv_lva(m: BoardModel, mv: Move) -> int {
    (match m.at(mv.end.x as int, mv.end.y as int).piece_type {
        PieceType::Bishop => 30int,
        PieceType::Knight => 20int,
        PieceType::Rook => 40int,
        PieceType::King => 0int,
        PieceType::Queen => 50int,
        PieceType::Pawn => 10int,
        PieceType::Empty => 0int,
    }) + (match m.at(mv.start.x as int, mv.start.y as int).piece_type {
        PieceType::Bishop => 3int,
        PieceType::Knight => 4int,
        PieceType::Rook => 2int,
        PieceType::King => 0int,
        PieceType::Queen => 1int,
        PieceType::Pawn => 5int,
        PieceType::Empty => 0int,
    })
}

/// The first index from `i` on whose hint is largest, scanning forward
/// and keeping the earlier index on ties.
pub open spec fn spec_pick_from(s: Seq<(Move, i16)>, iter: int, max_ind: int) -> int
    decreases s.len() - iter,
    when 0 <= iter <= s.len()
{
    if iter >= s.len() {
        max_ind
    } else if 0 <= max_ind < s.len() && s[iter].1 > s[max_ind].1 {
        spec_pick_from(s, iter + 1, iter)
    } else {
        spec_pick_from(s, iter + 1, max_ind)
    }
}

/// One alpha-beta node's answer: the score given back and how many
/// positions the node's subtree visited.
pub ghost struct AbResult {
    pub score: int,
    pub nodes: nat,
}

/// The alpha-beta loop over the legal moves from index `i` on, carrying
/// the window (a, b) and the best score seen: each move's child is
/// searched one ply deeper with the roles swapped; the maximiser raises
/// `a` and stops once `best >= b`, the minimiser lowers `b` and stops
/// once `best <= a` (both fail-soft, returning the best seen).
pub open spec fn spec_ab_loop(
    m: BoardModel,
    moves: Seq<Move>,
    i: int,
    depth: int,
    a: int,
    b: int,
    best: int,
    maxing: bool,
    c: Color,
) -> AbResult
    decreases depth, 0int, moves.len() - i,
    when depth >= 1 && 0 <= i <= moves.len()
{
    if i >= moves.len() {
        AbResult { score: best, nodes: 0 }
    } else {
        let child = spec_ab(spec_make_move(m, moves[i]), depth - 1, a, b, !maxing, spec_opponent(c));
        if maxing {
            let best2 = if child.score > best {
                child.score
            } else {
                best
            };
            let a2 = if best2 > a {
                best2
            } else {
                a
            };
            if best2 >= b {
                AbResult { score: best2, nodes: child.nodes }
            } else {
                let rest = spec_ab_loop(m, moves, i + 1, depth, a2, b, best2, maxing, c);
                AbResult { score: rest.score, nodes: child.nodes + rest.nodes }
            }
        } else {
            let best2 = if child.score < best {
                child.score
            } else {
                best
            };
            let b2 = if best2 < b {
                best2
            } else {
                b
            };
            if best2 <= a {
                AbResult { score: best2, nodes: child.nodes }
            } else {
                let rest = spec_ab_loop(m, moves, i + 1, depth, a, b2, best2, maxing, c);
                AbResult { score: rest.score, nodes: child.nodes + rest.nodes }
            }
        }
    }
}

/// One alpha-beta node: a checkmated side to move scores as the extreme
/// sentinel against the maximiser's role at once; at depth zero the
/// static evaluation is returned, negated for the minimiser; otherwise
/// the node runs `spec_ab_loop` over the side's legal moves.
pub open spec fn spec_ab(
    m: BoardModel,
    depth: int,
    al: int,
    be: int,
    maxing: bool,
    c: Color,
) -> AbResult
    decreases depth, 1int, 0int,
    when depth >= 0
{
    if spec_checkmate(m, c) {
        AbResult {
            score: if maxing {
                -32768int
            } else {
                32767int
            },
            nodes: 1,
        }
    } else if depth == 0 {
        AbResult {
            score: if maxing {
                spec_clamp(spec_evaluate(m, c))
            } else {
                -spec_clamp(spec_evaluate(m, c))
            },
            nodes: 1,
        }
    } else {
        let s = spec_ab_loop(
            m,
            spec_all_moves(m, c),
            0,
            depth,
            al,
            be,
            if maxing {
                -32768int
            } else {
                32767int
            },
            maxing,
            c,
        );
        AbResult { score: s.score, nodes: s.nodes + 1 }
    }
}

/// A tracing alpha-beta node's answer: the score, the board of the line
/// the node credits, and the node count.
pub ghost struct AbtResult {
    pub score: int,
    pub leaf: BoardModel,
    pub nodes: nat,
}

/// The tracing alpha-beta loop. It deliberately differs from
/// `spec_ab_loop` in three ways: it prunes strictly (`best > b` for the
/// maximiser, `best < a` for the minimiser), it carries the board of the
/// best line seen, and the maximiser's full-length exit credits the
/// node's own board rather than that line.
pub open spec fn spec_abt_loop(
    m: BoardModel,
    moves: Seq<Move>,
    i: int,
    depth: int,
    a: int,
    b: int,
    best: int,
    retb: BoardModel,
    maxing: bool,
    c: Color,
) -> AbtResult
    decreases depth, 0int, moves.len() - i,
    when depth >= 1 && 0 <= i <= moves.len()
{
    if i >= moves.len() {
        if maxing {
            AbtResult { score: best, leaf: m, nodes: 0 }
        } else {
            AbtResult { score: best, leaf: retb, nodes: 0 }
        }
    } else {
        let child = spec_abt(
            spec_make_move(m, moves[i]),
            depth - 1,
            a,
            b,
            !maxing,
            spec_opponent(c),
        );
        if maxing {
            let best2 = if child.score > best {
                child.score
            } else {
                best
            };
            let retb2 = if child.score > best {
                child.leaf
            } else {
                retb
            };
            let a2 = if best2 > a {
                best2
            } else {
                a
            };
            if best2 > b {
                AbtResult { score: best2, leaf: retb2, nodes: child.nodes }
            } else {
                let rest = spec_abt_loop(m, moves, i + 1, depth, a2, b, best2, retb2, maxing, c);
                AbtResult { score: rest.score, leaf: rest.leaf, nodes: child.nodes + rest.nodes }
            }
        } else {
            let best2 = if child.score < best {
                child.score
            } else {
                best
            };
            let retb2 = if child.score < best {
                child.leaf
            } else {
                retb
            };
            let b2 = if best2 < b {
                best2
            } else {
                b
            };
            if best2 < a {
                AbtResult { score: best2, leaf: retb2, nodes: child.nodes }
            } else {
                let rest = spec_abt_loop(m, moves, i + 1, depth, a, b2, best2, retb2, maxing, c);
                AbtResult { score: rest.score, leaf: rest.leaf, nodes: child.nodes + rest.nodes }
            }
        }
    }
}

/// One tracing alpha-beta node. Checkmate scores as the extreme sentinel
/// at once. At depth zero the maximiser takes the evaluation for the
/// side to move while the minimiser takes the opponent's view of the
/// same position (a deliberate quirk; `spec_ab` negates instead). A
/// side with no legal moves but not checkmated scores as the sentinel
/// too. Otherwise the node runs `spec_abt_loop`, crediting the first
/// move's board until a better line appears.
pub open spec fn spec_abt(
    m: BoardModel,
    depth: int,
    al: int,
    be: int,
    maxing: bool,
    c: Color,
) -> AbtResult
    decreases depth, 1int, 0int,
    when depth >= 0
{
    if spec_checkmate(m, c) {
        AbtResult {
            score: if maxing {
                -32768int
            } else {
                32767int
            },
            leaf: m,
            nodes: 1,
        }
    } else if depth == 0 {
        AbtResult {
            score: if maxing {
                spec_clamp(spec_evaluate(m, c))
            } else {
                spec_clamp(spec_evaluate(m, spec_opponent(c)))
            },
            leaf: m,
            nodes: 1,
        }
    } else if spec_all_moves(m, c).len() == 0 {
        AbtResult {
            score: if maxing {
                -32768int
            } else {
                32767int
            },
            leaf: m,
            nodes: 1,
        }
    } else {
        let moves = spec_all_moves(m, c);
        let s = spec_abt_loop(
            m,
            moves,
            0,
            depth,
            al,
            be,
            if maxing {
                -32768int
            } else {
                32767int
            },
            spec_make_move(m, moves[0]),
            maxing,
            c,
        );
        AbtResult { score: s.score, leaf: s.leaf, nodes: s.nodes + 1 }
    }
}

/// A root search's answer: the move picked, its score, and the node
/// count.
pub ghost struct SearchOutcome {
    pub best: Move,
    pub score: int,
    pub nodes: nat,
}

/// The root scan from move `i` on: each root move is applied and scored
/// by a full-window tracing search one ply down, from the opponent's
/// seat; a strictly better score displaces the running best, so the
/// earliest best keeps ties.
pub open spec fn spec_search_from(
    m: BoardModel,
    c: Color,
    moves: Seq<Move>,
    i: int,
    depth: int,
    mv: Move,
    score: int,
) -> SearchOutcome
    decreases moves.len() - i,
    when 0 <= i <= moves.len()
{
    if i >= moves.len() {
        SearchOutcome { best: mv, score: score, nodes: 0 }
    } else {
        let child = spec_abt(
            spec_make_move(m, moves[i]),
            depth,
            -32768,
            32767,
            false,
            spec_opponent(c),
        );
        let rest = if child.score > score {
            spec_search_from(m, c, moves, i + 1, depth, moves[i], child.score)
        } else {
            spec_search_from(m, c, moves, i + 1, depth, mv, score)
        };
        SearchOutcome { best: rest.best, score: rest.score, nodes: child.nodes + rest.nodes }
    }
}

/// One full root pass at a fixed depth, starting from a running best
/// (the move and score an earlier, shallower pass left behind).
pub open spec fn spec_search_depth(
    m: BoardModel,
    c: Color,
    depth: int,
    mv0: Move,
    score0: int,
) -> SearchOutcome {
    spec_search_from(m, c, spec_all_moves(m, c), 0, depth, mv0, score0)
}

/// The root scan only ever answers with its starting move or one of the
/// moves it scanned.
pub proof fn lemma_search_member(
    m: BoardModel,
    c: Color,
    moves: Seq<Move>,
    i: int,
    depth: int,
    mv: Move,
    score: int,
)
    requires
        0 <= i <= moves.len(),
    ensures
        spec_search_from(m, c, moves, i, depth, mv, score).best == mv || moves.contains(
            spec_search_from(m, c, moves, i, depth, mv, score).best,
        ),
    decreases moves.len() - i,
{
    if i < moves.len() {
        let child = spec_abt(
            spec_make_move(m, moves[i]),
            depth,
            -32768,
            32767,
            false,
            spec_opponent(c),
        );
        if child.score > score {
            lemma_search_member(m, c, moves, i + 1, depth, moves[i], child.score);
        } else {
            lemma_search_member(m, c, moves, i + 1, depth, mv, score);
        }
    }
}

impl AI {
    pub fn new() -> (r: AI)
        ensures
            r.pos_evaluated == 0,
    {
        AI { pos_evaluated: 0 }
    }

    /// The capture-ordering hint for a move, as `spec_mvv_lva` describes.
    pub fn mvv_lva_score(&self, board: Board, mv: Move) -> (r: i16)
        requires
            spec_valid(mv.start),
            spec_valid(mv.end),
        ensures
            r as int == spec_mvv_lva(board@, mv),
    {
        (match board.get_piece(mv.end).piece_type {
            PieceType::Bishop => 30,
            PieceType::Knight => 20,
            PieceType::Rook => 40,
            PieceType::King => 0,
            PieceType::Queen => 50,
            PieceType::Pawn => 10,
            PieceType::Empty => 0,
        }) + (match board.get_piece(mv.start).piece_type {
            PieceType::Bishop => 3,
            PieceType::Knight => 4,
            PieceType::Rook => 2,
            PieceType::King => 0,
            PieceType::Queen => 1,
            PieceType::Pawn => 5,
            PieceType::Empty => 0,
        })
    }

    /// Alpha-beta negamax to the given depth, as `spec_ab` describes:
    /// the score comes back exactly as the spec recursion computes it,
    /// and the visit counter grows by the subtree's node count (stopping
    /// at the top of its range).
    pub fn alphabeta(
        &mut self,
        board: Board,
        depth: u8,
        al: i16,
        be: i16,
        max: bool,
        color: Color,
    ) -> (r: i16)
        requires
            kings_on_board(board@),
        ensures
            r as int == spec_ab(board@, depth as int, al as int, be as int, max, color).score,
            final(self).pos_evaluated as int == sat_add64(
                old(self).pos_evaluated as int,
                spec_ab(board@, depth as int, al as int, be as int, max, color).nodes as int,
            ),
        decreases depth,
    {
        let ghost pe0 = self.pos_evaluated as int;
        if self.pos_evaluated < u64::MAX {
            self.pos_evaluated = self.pos_evaluated + 1;
        }
        if board.checkmatep(color) {
            return if max {
                -32768
            } else {
                32767
            };
        }
        if depth == 0 {
            let e = evaluator::evaluate(board, color);
            proof {
                assert(spec_ab(board@, depth as int, al as int, be as int, max, color)
                    == AbResult {
                    score: if max {
                        spec_clamp(spec_evaluate(board@, color))
                    } else {
                        -spec_clamp(spec_evaluate(board@, color))
                    },
                    nodes: 1nat,
                });
                assert(-32767 <= e as int <= 32767);
            }
            return if max {
                e
            } else {
                e * -1
            };
        }
        let moves = board.get_all_moves(color);
        let op = color.opponent_color();
        let ghost d = depth as int;
        let ghost m = board@;
        let ghost whole = spec_ab_loop(
            m,
            moves@,
            0,
            d,
            al as int,
            be as int,
            if max {
                -32768int
            } else {
                32767int
            },
            max,
            color,
        );
        let mut a = al;
        let mut b = be;
        let mut best: i16 = if max {
            -32768
        } else {
            32767
        };
        let mut i: usize = 0;
        let ghost mut used: int = 0;
        while i < moves.len()
            invariant
                i <= moves.len(),
                kings_on_board(m),
                board@ == m,
                moves_valid(moves@),
                moves@ == spec_all_moves(m, color),
                !spec_checkmate(m, color),
                depth >= 1,
                d == depth as int,
                op == spec_opponent(color),
                0 <= used,
                pe0 == old(self).pos_evaluated as int,
                self.pos_evaluated as int == sat_add64(pe0, 1 + used),
                whole == spec_ab_loop(
                    m,
                    moves@,
                    0,
                    d,
                    al as int,
                    be as int,
                    if max {
                        -32768int
                    } else {
                        32767int
                    },
                    max,
                    color,
                ),
                whole.score == spec_ab_loop(
                    m,
                    moves@,
                    i as int,
                    d,
                    a as int,
                    b as int,
                    best as int,
                    max,
                    color,
                ).score,
                whole.nodes == used + spec_ab_loop(
                    m,
                    moves@,
                    i as int,
                    d,
                    a as int,
                    b as int,
                    best as int,
                    max,
                    color,
                ).nodes,
            decreases moves.len() - i,
        {
            let ghost i0 = i as int;
            let ghost a0 = a as int;
            let ghost b0 = b as int;
            let ghost best0 = best as int;
            let ghost used0 = used;
            let mv = moves[i];
            let mut nb: Board = board;
            nb.make_move(mv);
            proof {
                lemma_make_move_kings(m, mv);
            }
            let ghost child = spec_ab(nb@, d - 1, a as int, b as int, !max, op);
            let cur = self.alphabeta(nb, depth - 1, a, b, !max, op);
            proof {
                used = used + child.nodes;
                assert(nb@ == spec_make_move(m, moves@[i0]));
            }
            if max {
                if cur > best {
                    best = cur;
                }
                if best > a {
                    a = best;
                }
                if best >= b {
                    proof {
                        assert(spec_ab_loop(m, moves@, i0, d, a0, b0, best0, max, color)
                            == AbResult { score: best as int, nodes: child.nodes });
                        assert(spec_ab(board@, depth as int, al as int, be as int, max, color)
                            == AbResult { score: whole.score, nodes: whole.nodes + 1 });
                    }
                    return best;
                }
            } else {
                if cur < best {
                    best = cur;
                }
                if best < b {
                    b = best;
                }
                if best <= a {
                    proof {
                        assert(spec_ab_loop(m, moves@, i0, d, a0, b0, best0, max, color)
                            == AbResult { score: best as int, nodes: child.nodes });
                        assert(spec_ab(board@, depth as int, al as int, be as int, max, color)
                            == AbResult { score: whole.score, nodes: whole.nodes + 1 });
                    }
                    return best;
                }
            }
            proof {
                let rest = spec_ab_loop(
                    m,
                    moves@,
                    i0 + 1,
                    d,
                    a as int,
                    b as int,
                    best as int,
                    max,
                    color,
                );
                assert(spec_ab_loop(m, moves@, i0, d, a0, b0, best0, max, color) == AbResult {
                    score: rest.score,
                    nodes: child.nodes + rest.nodes,
                });
            }
            i = i + 1;
        }
        proof {
            assert(spec_ab(board@, depth as int, al as int, be as int, max, color) == AbResult {
                score: whole.score,
                nodes: whole.nodes + 1,
            });
        }
        best
    }

    /// Alpha-beta negamax that also hands back the board of the line it
    /// credits, as `spec_abt` describes (see there for the quirks it
    /// keeps). A side with no legal moves scores as the mate sentinel.
    #[verifier::rlimit(60)]
    pub fn alphabeta_trace(
        &mut self,
        board: Board,
        depth: u8,
        al: i16,
        be: i16,
        max: bool,
        color: Color,
    ) -> (r: (i16, Board))
        requires
            kings_on_board(board@),
        ensures
            r.0 as int == spec_abt(board@, depth as int, al as int, be as int, max, color).score,
            r.1@ == spec_abt(board@, depth as int, al as int, be as int, max, color).leaf,
            final(self).pos_evaluated as int == sat_add64(
                old(self).pos_evaluated as int,
                spec_abt(board@, depth as int, al as int, be as int, max, color).nodes as int,
            ),
        decreases depth,
    {
        let ghost pe0 = self.pos_evaluated as int;
        if self.pos_evaluated < u64::MAX {
            self.pos_evaluated = self.pos_evaluated + 1;
        }
        if board.checkmatep(color) {
            return if max {
                (-32768, board)
            } else {
                (32767, board)
            };
        }
        if depth == 0 {
            return if max {
                (evaluator::evaluate(board, color), board)
            } else {
                (evaluator::evaluate(board, color.opponent_color()), board)
            };
        }
        let moves = board.get_all_moves(color);
        if moves.len() == 0 {
            return if max {
                (-32768, board)
            } else {
                (32767, board)
            };
        }
        let op = color.opponent_color();
        let ghost d = depth as int;
        let ghost m = board@;
        let mut ret_board: Board = board;
        ret_board.make_move(moves[0]);
        let ghost whole = spec_abt_loop(
            m,
            moves@,
            0,
            d,
            al as int,
            be as int,
            if max {
                -32768int
            } else {
                32767int
            },
            ret_board@,
            max,
            color,
        );
        let mut a = al;
        let mut b = be;
        let mut best: i16 = if max {
            -32768
        } else {
            32767
        };
        let mut i: usize = 0;
        let ghost mut used: int = 0;
        while i < moves.len()
            invariant
                i <= moves.len(),
                kings_on_board(m),
                board@ == m,
                moves_valid(moves@),
                moves@ == spec_all_moves(m, color),
                moves@.len() > 0,
                !spec_checkmate(m, color),
                depth >= 1,
                d == depth as int,
                op == spec_opponent(color),
                0 <= used,
                pe0 == old(self).pos_evaluated as int,
                self.pos_evaluated as int == sat_add64(pe0, 1 + used),
                whole == spec_abt_loop(
                    m,
                    moves@,
                    0,
                    d,
                    al as int,
                    be as int,
                    if max {
                        -32768int
                    } else {
                        32767int
                    },
                    spec_make_move(m, moves@[0]),
                    max,
                    color,
                ),
                whole.score == spec_abt_loop(
                    m,
                    moves@,
                    i as int,
                    d,
                    a as int,
                    b as int,
                    best as int,
                    ret_board@,
                    max,
                    color,
                ).score,
                whole.leaf == spec_abt_loop(
                    m,
                    moves@,
                    i as int,
                    d,
                    a as int,
                    b as int,
                    best as int,
                    ret_board@,
                    max,
                    color,
                ).leaf,
                whole.nodes == used + spec_abt_loop(
                    m,
                    moves@,
                    i as int,
                    d,
                    a as int,
                    b as int,
                    best as int,
                    ret_board@,
                    max,
                    color,
                ).nodes,
            decreases moves.len() - i,
        {
            let ghost i0 = i as int;
            let ghost a0 = a as int;
            let ghost b0 = b as int;
            let ghost best0 = best as int;
            let ghost retb0 = ret_board@;
            let ghost used0 = used;
            let mv = moves[i];
            let mut nb: Board = board;
            nb.make_move(mv);
            proof {
                lemma_make_move_kings(m, mv);
            }
            let ghost child = spec_abt(nb@, d - 1, a as int, b as int, !max, op);
            let (cur, temp_ret) = self.alphabeta_trace(nb, depth - 1, a, b, !max, op);
            proof {
                used = used + child.nodes;
                assert(nb@ == spec_make_move(m, moves@[i0]));
            }
            if max {
                if cur > best {
                    best = cur;
                    ret_board = temp_ret;
                }
                if best > a {
                    a = best;
                }
                if best > b {
                    proof {
                        assert(spec_abt_loop(m, moves@, i0, d, a0, b0, best0, retb0, max, color)
                            == AbtResult {
                            score: best as int,
                            leaf: ret_board@,
                            nodes: child.nodes,
                        });
                    }
                    return (best, ret_board);
                }
            } else {
                if cur < best {
                    best = cur;
                    ret_board = temp_ret;
                }
                if best < b {
                    b = best;
                }
                if best < a {
                    proof {
                        assert(spec_abt_loop(m, moves@, i0, d, a0, b0, best0, retb0, max, color)
                            == AbtResult {
                            score: best as int,
                            leaf: ret_board@,
                            nodes: child.nodes,
                        });
                    }
                    return (best, ret_board);
                }
            }
            proof {
                let rest = spec_abt_loop(
                    m,
                    moves@,
                    i0 + 1,
                    d,
                    a as int,
                    b as int,
                    best as int,
                    ret_board@,
                    max,
                    color,
                );
                assert(spec_abt_loop(m, moves@, i0, d, a0, b0, best0, retb0, max, color)
                    == AbtResult {
                    score: rest.score,
                    leaf: rest.leaf,
                    nodes: child.nodes + rest.nodes,
                });
            }
            i = i + 1;
        }
        if max {
            (best, board)
        } else {
            (best, ret_board)
        }
    }

    /// One full root pass at a fixed depth, as `spec_search_depth`
    /// describes: every legal root move is tried and scored by
    /// `alphabeta_trace`, and a strictly better score displaces the
    /// running best handed in. Two passes over the same board, depth and
    /// running best answer alike: the result is a function of those
    /// arguments alone.
    pub fn search_depth(
        &mut self,
        board: Board,
        color: Color,
        depth: u8,
        mv0: Move,
        score0: i16,
    ) -> (r: (Move, i16))
        requires
            kings_on_board(board@),
        ensures
            r.0 == spec_search_depth(board@, color, depth as int, mv0, score0 as int).best,
            r.1 as int == spec_search_depth(board@, color, depth as int, mv0, score0 as int).score,
            final(self).pos_evaluated as int == sat_add64(
                old(self).pos_evaluated as int,
                spec_search_depth(board@, color, depth as int, mv0, score0 as int).nodes as int,
            ),
    {
        let ghost pe0 = self.pos_evaluated as int;
        let ghost m = board@;
        let ghost d = depth as int;
        let moves = board.get_all_moves(color);
        let op = color.opponent_color();
        let ghost whole = spec_search_from(m, color, moves@, 0, d, mv0, score0 as int);
        let mut mv: Move = mv0;
        let mut score: i16 = score0;
        let mut i: usize = 0;
        let ghost mut used: int = 0;
        while i < moves.len()
            invariant
                i <= moves.len(),
                kings_on_board(m),
                board@ == m,
                moves_valid(moves@),
                moves@ == spec_all_moves(m, color),
                d == depth as int,
                op == spec_opponent(color),
                0 <= used,
                pe0 == old(self).pos_evaluated as int,
                self.pos_evaluated as int == sat_add64(pe0, used),
                whole == spec_search_from(m, color, moves@, 0, d, mv0, score0 as int),
                whole.best == spec_search_from(
                    m,
                    color,
                    moves@,
                    i as int,
                    d,
                    mv,
                    score as int,
                ).best,
                whole.score == spec_search_from(
                    m,
                    color,
                    moves@,
                    i as int,
                    d,
                    mv,
                    score as int,
                ).score,
                whole.nodes == used + spec_search_from(
                    m,
                    color,
                    moves@,
                    i as int,
                    d,
                    mv,
                    score as int,
                ).nodes,
            decreases moves.len() - i,
        {
            let ghost i0 = i as int;
            let ghost mv_g = mv;
            let ghost score_g = score as int;
            let ghost used0 = used;
            let mov = moves[i];
            let mut nb: Board = board;
            nb.make_move(mov);
            proof {
                lemma_make_move_kings(m, mov);
            }
            let ghost child = spec_abt(nb@, d, -32768, 32767, false, op);
            let t = self.alphabeta_trace(nb, depth, -32768, 32767, false, op);
            let temp_score = t.0;
            proof {
                used = used + child.nodes;
                assert(nb@ == spec_make_move(m, moves@[i0]));
            }
            if temp_score > score {
                mv = mov;
                score = temp_score;
            }
            proof {
                let rest = spec_search_from(m, color, moves@, i0 + 1, d, mv, score as int);
                assert(spec_search_from(m, color, moves@, i0, d, mv_g, score_g) == SearchOutcome {
                    best: rest.best,
                    score: rest.score,
                    nodes: child.nodes + rest.nodes,
                });
            }
            i = i + 1;
        }
        (mv, score)
    }

    /// Swaps the hinted move list's entry at `i` with the best-hinted
    /// entry at or after `i` (the first such on ties), so selection
    /// sorting can pull promising captures forward.
    pub fn pick_move(&self, move_list: &mut Vec<(Move, i16)>, i: usize)
        requires
            i < old(move_list)@.len(),
        ensures
            final(move_list)@ == old(move_list)@.update(
                i as int,
                old(move_list)@[spec_pick_from(old(move_list)@, i as int, i as int)],
            ).update(spec_pick_from(old(move_list)@, i as int, i as int), old(move_list)@[i as int]),
    {
        let ghost s = move_list@;
        let mut max_ind: usize = i;
        let mut max_val: i16 = move_list[i].1;
        let mut iter: usize = i;
        while iter < move_list.len()
            invariant
                move_list@ == s,
                i <= iter <= s.len(),
                i <= max_ind < s.len(),
                max_val == s[max_ind as int].1,
                spec_pick_from(s, i as int, i as int) == spec_pick_from(
                    s,
                    iter as int,
                    max_ind as int,
                ),
            decreases s.len() - iter,
        {
            if move_list[iter].1 > max_val {
                max_ind = iter;
                max_val = move_list[iter].1;
            }
            iter = iter + 1;
        }
        let a = move_list[i];
        let b = move_list[max_ind];
        move_list.set(i, b);
        move_list.set(max_ind, a);
    }
}

/// The depth of the engine's fixed root pass.
pub const SEARCH_DEPTH: u8 = 4;

impl Player for AI {
    /// The engine's turn: the only legal move when there is just one;
    /// the fixed placeholder move (both squares {0,0}) when there is
    /// none, since callers test checkmate first; otherwise the best
    /// move of one fixed-depth root pass, which is always legal.
    fn take_turn(&mut self, board: Board, color: Color) -> (r: Move)
        ensures
            spec_all_moves(board@, color).len() == 1 ==> r == spec_all_moves(board@, color)[0],
            spec_all_moves(board@, color).len() == 0 ==> r == (Move {
                start: Position { x: 0, y: 0 },
                end: Position { x: 0, y: 0 },
            }),
            spec_all_moves(board@, color).len() > 0 ==> spec_all_moves(board@, color).contains(r),
            spec_all_moves(board@, color).len() > 1 ==> r == spec_search_depth(
                board@,
                color,
                SEARCH_DEPTH as int,
                spec_all_moves(board@, color)[0],
                -32768,
            ).best,
    {
        let moves = board.get_all_moves(color);
        if moves.len() == 1 {
            proof {
                assert(moves@.contains(moves@[0]));
            }
            return moves[0];
        }
        if moves.len() == 0 {
            return Move { start: Position { x: 0, y: 0 }, end: Position { x: 0, y: 0 } };
        }
        let first = moves[0];
        let r = self.search_depth(board, color, SEARCH_DEPTH, first, -32768);
        proof {
            lemma_search_member(
                board@,
                color,
                moves@,
                0,
                SEARCH_DEPTH as int,
                first,
                -32768,
            );
            assert(moves@.contains(moves@[0]));
        }
        r.0
    }
}

} // verus!
