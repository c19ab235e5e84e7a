//! The one capability a player offers: asked for a move on a board, it
//! answers with one. The engine implements it by search; an interactive
//! front end may implement it around its own input loop.

use vstd::prelude::*;
use crate::board::{Board, kings_on_board};
use crate::color::Color;
use crate::move_::Move;

verus! {

pub trait Player {
    /// Picks the move the player wishes to play for the given side.
    fn take_turn(&mut self, board: Board, color: Color) -> Move
        requires
            kings_on_board(board@),
    ;
}

} // verus!
