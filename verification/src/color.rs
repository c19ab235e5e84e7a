//! The side a piece belongs to. `None` marks the colour of an empty square.

use vstd::prelude::*;

verus! {

#[derive(PartialEq, Eq, Structural, Debug, Copy, Clone)]
pub enum Color {
    White,
    Black,
    Empty,
}

/// The opposing side: White and Black swap; the empty colour has no opponent.
pub open spec fn spec_opponent(c: Color) -> Color {
    match c {
        Color::White => Color::Black,
        Color::Black => Color::White,
        Color::Empty => Color::Empty,
    }
}

impl Color {
    /// Single-letter tag for the side: "w" for White, "b" for Black,
    /// empty for the colour of an empty square.
    pub fn to_string(&self) -> (r: String)
        ensures
            *self == Color::White ==> r@ == "w"@,
            *self == Color::Black ==> r@ == "b"@,
            *self == Color::Empty ==> r@ == ""@,
    {
        if *self == Color::Empty {
            "".to_owned()
        } else if *self == Color::White {
            "w".to_owned()
        } else {
            "b".to_owned()
        }
    }

    pub fn opponent_color(&self) -> (r: Color)
        ensures
            r == spec_opponent(*self),
    {
        if *self == Color::Empty {
            return Color::Empty;
        }
        if *self == Color::White {
            Color::Black
        } else {
            Color::White
        }
    }
}

} // verus!
