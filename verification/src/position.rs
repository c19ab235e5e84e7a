//! A square named by file (`x`) and rank (`y`), both counted from zero.
//! Directional steps move one square; a position is valid iff both
//! coordinates lie in [0, 7].

use vstd::prelude::*;

verus! {

#[derive(Copy, Clone, Debug, PartialEq, Eq, Structural)]
pub struct Position {
    pub x: isize,
    pub y: isize,
}

/// Both coordinates lie on the board.
pub open spec fn spec_valid(p: Position) -> bool {
    0 <= p.x <= 7 && 0 <= p.y <= 7
}

/// The file index a letter names: a–h (either case) give 0–7, anything
/// else gives file 0.
pub open spec fn spec_file_index(c: char) -> int {
    if c == 'a' || c == 'A' {
        0
    } else if c == 'b' || c == 'B' {
        1
    } else if c == 'c' || c == 'C' {
        2
    } else if c == 'd' || c == 'D' {
        3
    } else if c == 'e' || c == 'E' {
        4
    } else if c == 'f' || c == 'F' {
        5
    } else if c == 'g' || c == 'G' {
        6
    } else if c == 'h' || c == 'H' {
        7
    } else {
        0
    }
}

impl Position {
    /// One square toward the higher ranks.
    pub fn up(&self) -> (r: Position)
        requires
            self.y < isize::MAX,
        ensures
            r.x == self.x,
            r.y == self.y + 1,
    {
        Position { x: self.x, y: self.y + 1 }
    }

    /// One square toward the lower ranks.
    pub fn down(&self) -> (r: Position)
        requires
            self.y > isize::MIN,
        ensures
            r.x == self.x,
            r.y == self.y - 1,
    {
        Position { x: self.x, y: self.y - 1 }
    }

    /// One square toward the lower files.
    pub fn left(&self) -> (r: Position)
        requires
            self.x > isize::MIN,
        ensures
            r.x == self.x - 1,
            r.y == self.y,
    {
        Position { x: self.x - 1, y: self.y }
    }

    /// One square toward the higher files.
    pub fn right(&self) -> (r: Position)
        requires
            self.x < isize::MAX,
        ensures
            r.x == self.x + 1,
            r.y == self.y,
    {
        Position { x: self.x + 1, y: self.y }
    }

    /// Whether the position lies on the board.
    pub fn validp(&self) -> (r: bool)
        ensures
            r == spec_valid(*self),
    {
        self.x >= 0 && self.x <= 7 && self.y >= 0 && self.y <= 7
    }

    /// Reads a square name of the form file letter then rank digit, such
    /// as "e2": the letter picks the file (unknown letters give file 0)
    /// and the digit, one-based, picks the rank.
    pub fn from_string(s: String) -> (r: Position)
        requires
            s@.len() >= 2,
            '1' <= s@[1] <= '9',
        ensures
            r.x == spec_file_index(s@[0]),
            r.y == s@[1] as int - '1' as int,
    {
        let c0: char = s.as_str().get_char(0);
        let x: isize = match c0 {
            'a' | 'A' => 0,
            'b' | 'B' => 1,
            'c' | 'C' => 2,
            'd' | 'D' => 3,
            'e' | 'E' => 4,
            'f' | 'F' => 5,
            'g' | 'G' => 6,
            'h' | 'H' => 7,
            _ => 0,
        };
        let c1: char = s.as_str().get_char(1);
        let y: isize = (c1 as u32 as isize) - ('1' as u32 as isize);
        Position { x: x, y: y }
    }
}

} // verus!
