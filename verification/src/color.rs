use vstd::prelude::*;

verus! {

/// One of the two sides.
#[derive(Clone, Copy, Debug, PartialEq, Eq, Structural)]
pub enum Color {
    White,
    Black,
}

impl Color {
    /// The other side.
    pub open spec fn spec_opposite(self) -> Color {
        match self {
            Color::White => Color::Black,
            Color::Black => Color::White,
        }
    }

    /// The side's number: 0 for White, 1 for Black.
    pub open spec fn spec_index(self) -> int {
        match self {
            Color::White => 0,
            Color::Black => 1,
        }
    }

    /// The side's number.
    pub fn index(&self) -> (r: usize)
        ensures
            r == self.spec_index(),
    {
        match *self {
            Color::White => 0,
            Color::Black => 1,
        }
    }

    /// Returns the other side.
    pub fn opposite(&self) -> (r: Color)
        ensures
            r == self.spec_opposite(),
    {
        match *self {
            Color::White => Color::Black,
            Color::Black => Color::White,
        }
    }

    /// Hands the move to the other side.
    pub fn switch(&mut self)
        ensures
            *final(self) == old(self).spec_opposite(),
    {
        *self = self.opposite();
    }

    /// The side's name, `White` or `Black`.
    pub open spec fn spec_text(self) -> Seq<char> {
        match self {
            Color::White => "White"@,
            Color::Black => "Black"@,
        }
    }

    /// The side's name.
    pub fn to_str(&self) -> (r: &'static str)
        ensures
            r@ == self.spec_text(),
    {
        match *self {
            Color::White => "White",
            Color::Black => "Black",
        }
    }
}

} // verus!
