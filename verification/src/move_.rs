//! A move is an ordered pair of squares. The castle predicates recognise
//! the four fixed king journeys: e1→g1 / e8→g8 on the king side and
//! e1→c1 / e8→c8 on the queen side.

use vstd::prelude::*;
use crate::position::Position;

verus! {

#[derive(Debug, Copy, Clone, PartialEq, Eq, Structural)]
pub struct Move {
    pub start: Position,
    pub end: Position,
}

/// The move is one of the two fixed king-side castle journeys.
pub open spec fn spec_kingside_castle(m: Move) -> bool {
    (m.start == Position { x: 4, y: 0 } && m.end == Position { x: 6, y: 0 })
        || (m.start == Position { x: 4, y: 7 } && m.end == Position { x: 6, y: 7 })
}

/// The move is one of the two fixed queen-side castle journeys.
pub open spec fn spec_queenside_castle(m: Move) -> bool {
    (m.start == Position { x: 4, y: 0 } && m.end == Position { x: 2, y: 0 })
        || (m.start == Position { x: 4, y: 7 } && m.end == Position { x: 2, y: 7 })
}

impl Move {
    pub fn kingside_castlep(&self) -> (r: bool)
        ensures
            r == spec_kingside_castle(*self),
    {
        (self.start == Position { x: 4, y: 0 } && self.end == Position { x: 6, y: 0 })
            || (self.start == Position { x: 4, y: 7 } && self.end == Position { x: 6, y: 7 })
    }

    pub fn queenside_castlep(&self) -> (r: bool)
        ensures
            r == spec_queenside_castle(*self),
    {
        (self.start == Position { x: 4, y: 0 } && self.end == Position { x: 2, y: 0 })
            || (self.start == Position { x: 4, y: 7 } && self.end == Position { x: 2, y: 7 })
    }
}

} // verus!
