use vstd::prelude::*;

verus! {

/// A rank of the board, named as it is printed: `R1` is White's back rank.
#[derive(Clone, Copy, Debug, PartialEq, Eq, Structural)]
pub enum Rank {
    R8,
    R7,
    R6,
    R5,
    R4,
    R3,
    R2,
    R1,
}

impl Rank {
    /// The rank's row in the board's layout: 0 for the 8th rank down to 7 for the 1st.
    pub open spec fn spec_index(self) -> int {
        match self {
            Rank::R8 => 0,
            Rank::R7 => 1,
            Rank::R6 => 2,
            Rank::R5 => 3,
            Rank::R4 => 4,
            Rank::R3 => 5,
            Rank::R2 => 6,
            Rank::R1 => 7,
        }
    }

    /// The rank with the given number.
    pub open spec fn spec_of(index: int) -> Rank {
        if index == 0 {
            Rank::R8
        } else if index == 1 {
            Rank::R7
        } else if index == 2 {
            Rank::R6
        } else if index == 3 {
            Rank::R5
        } else if index == 4 {
            Rank::R4
        } else if index == 5 {
            Rank::R3
        } else if index == 6 {
            Rank::R2
        } else {
            Rank::R1
        }
    }

    /// The rank in the given row of the layout.
    pub fn from(number: u8) -> (r: Rank)
        requires
            number < 8,
        ensures
            r.spec_index() == number,
            r == Rank::spec_of(number as int),
    {
        match number {
            0 => Rank::R8,
            1 => Rank::R7,
            2 => Rank::R6,
            3 => Rank::R5,
            4 => Rank::R4,
            5 => Rank::R3,
            6 => Rank::R2,
            _ => Rank::R1,
        }
    }

    /// The rank's row in the layout.
    pub fn index(&self) -> (r: u8)
        ensures
            r == self.spec_index(),
            r < 8,
    {
        match *self {
            Rank::R8 => 0,
            Rank::R7 => 1,
            Rank::R6 => 2,
            Rank::R5 => 3,
            Rank::R4 => 4,
            Rank::R3 => 5,
            Rank::R2 => 6,
            Rank::R1 => 7,
        }
    }

    /// The rank's digit as it is printed, `1` to `8`.
    pub open spec fn spec_text(self) -> Seq<char> {
        match self {
            Rank::R8 => "8"@,
            Rank::R7 => "7"@,
            Rank::R6 => "6"@,
            Rank::R5 => "5"@,
            Rank::R4 => "4"@,
            Rank::R3 => "3"@,
            Rank::R2 => "2"@,
            Rank::R1 => "1"@,
        }
    }

    /// The rank's digit as it is printed.
    pub fn to_str(&self) -> (r: &'static str)
        ensures
            r@ == self.spec_text(),
    {
        match *self {
            Rank::R8 => "8",
            Rank::R7 => "7",
            Rank::R6 => "6",
            Rank::R5 => "5",
            Rank::R4 => "4",
            Rank::R3 => "3",
            Rank::R2 => "2",
            Rank::R1 => "1",
        }
    }
}

} // verus!
