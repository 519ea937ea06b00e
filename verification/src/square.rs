use vstd::prelude::*;
use vstd::string::*;
use crate::bitboard::Bitboard;
use crate::bits::{single, group_bits};
use crate::file::File;
use crate::rank::Rank;

verus! {

/// A square of the board by its index, 0 for a8 up to 63 for h1, or the sentinel 64 for no square.
#[derive(Clone, Copy, Debug, PartialEq, Eq, Structural)]
pub struct Square(pub u8);

/// Whether file `f` and row `r` name a square of the board.
pub open spec fn on_board(f: int, r: int) -> bool {
    0 <= f < 8 && 0 <= r < 8
}

/// The index of the square on file `f` and row `r`.
pub open spec fn square_at(f: int, r: int) -> int {
    r * 8 + f
}

/// The one-square word for file `f` and row `r`, or the empty word off the board.
pub open spec fn square_bit(f: int, r: int) -> u64 {
    if on_board(f, r) {
        single(square_at(f, r) as u64)
    } else {
        0
    }
}

impl Square {
    pub const A8: u8 = 0;
    pub const B8: u8 = 1;
    pub const C8: u8 = 2;
    pub const D8: u8 = 3;
    pub const E8: u8 = 4;
    pub const F8: u8 = 5;
    pub const G8: u8 = 6;
    pub const H8: u8 = 7;
    pub const A1: u8 = 56;
    pub const B1: u8 = 57;
    pub const C1: u8 = 58;
    pub const D1: u8 = 59;
    pub const E1: u8 = 60;
    pub const F1: u8 = 61;
    pub const G1: u8 = 62;
    pub const H1: u8 = 63;
    pub const NONE: u8 = 64;

    /// A square of the board, not the sentinel.
    pub open spec fn is_some(self) -> bool {
        self.0 < 64
    }

    /// A square of the board or the sentinel.
    pub open spec fn wf(self) -> bool {
        self.0 <= 64
    }

    /// The square's file number, 0 for the a-file.
    pub open spec fn file_index(self) -> int {
        self.0 as int % 8
    }

    /// The square's row, 0 for the 8th rank.
    pub open spec fn rank_index(self) -> int {
        self.0 as int / 8
    }

    /// The sentinel that stands for no square.
    pub fn none() -> (r: Square)
        ensures
            r.0 == Square::NONE,
    {
        Square(Square::NONE)
    }

    /// The square with the given index.
    pub fn from(index: u8) -> (r: Square)
        requires
            index <= 64,
        ensures
            r.0 == index,
    {
        Square(index)
    }

    /// Whether this is a square of the board.
    pub fn is_square(&self) -> (r: bool)
        ensures
            r == self.is_some(),
    {
        self.0 < 64
    }

    /// The square's index.
    pub fn index(&self) -> (r: usize)
        ensures
            r == self.0,
    {
        self.0 as usize
    }

    /// The rank the square lies on.
    pub fn rank(&self) -> (r: Rank)
        requires
            self.is_some(),
        ensures
            r.spec_index() == self.rank_index(),
    {
        Rank::from(self.0 / 8)
    }

    /// The file the square lies on.
    pub fn file(&self) -> (r: File)
        requires
            self.is_some(),
        ensures
            r.spec_index() == self.file_index(),
    {
        File::from(self.0 % 8)
    }

    /// The board that holds this square alone.
    pub fn to_bb(&self) -> (r: Bitboard)
        requires
            self.is_some(),
        ensures
            r.0 == single(self.0 as u64),
            r.0 == square_bit(self.file_index(), self.rank_index()),
            r@ == set![self.0 as int],
    {
        let r = Bitboard(1u64 << (self.0 as u64));
        proof {
            broadcast use group_bits;
            assert(r.0 == single(self.0 as u64));
            assert(r@ =~= set![self.0 as int]);
        }
        r
    }

    /// The square one rank up the board as printed, towards the 8th rank.
    pub fn above(&self) -> (r: Square)
        requires
            self.is_some(),
            self.0 >= 8,
        ensures
            r.0 == self.0 - 8,
    {
        Square(self.0 - 8)
    }

    /// The square one rank down the board as printed, towards the 1st rank.
    pub fn below(&self) -> (r: Square)
        requires
            self.0 < 56,
        ensures
            r.0 == self.0 + 8,
    {
        Square(self.0 + 8)
    }

    /// The square's name: its file's letter and its rank's digit, or a dash for no square.
    pub open spec fn spec_text(self) -> Seq<char> {
        if self.0 < 64 {
            File::spec_of(self.file_index()).spec_text() + Rank::spec_of(
                self.rank_index(),
            ).spec_text()
        } else {
            "-"@
        }
    }

    /// The square's name.
    pub fn to_string(&self) -> (r: String)
        ensures
            r@ == self.spec_text(),
    {
        if self.0 < 64 {
            let mut name = String::from_str(self.file().to_str());
            name.append(self.rank().to_str());
            name
        } else {
            String::from_str("-")
        }
    }
}

} // verus!
