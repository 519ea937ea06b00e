use vstd::prelude::*;
use crate::color::Color;

verus! {

/// A piece with its colour, or the sentinel `Null` for no piece.
#[derive(Clone, Copy, Debug, PartialEq, Eq, Structural)]
pub enum PieceType {
    WP,
    WN,
    WB,
    WR,
    WQ,
    WK,
    BP,
    BN,
    BB,
    BR,
    BQ,
    BK,
    Null,
}

impl PieceType {
    pub const WHITE_PIECES: [PieceType; 6] = [
        PieceType::WP,
        PieceType::WN,
        PieceType::WB,
        PieceType::WR,
        PieceType::WQ,
        PieceType::WK,
    ];

    pub const BLACK_PIECES: [PieceType; 6] = [
        PieceType::BP,
        PieceType::BN,
        PieceType::BB,
        PieceType::BR,
        PieceType::BQ,
        PieceType::BK,
    ];

    /// The piece's number: 0 to 5 for White's pawn to king, 6 to 11 for Black's, 12 for `Null`.
    pub open spec fn spec_index(self) -> int {
        match self {
            PieceType::WP => 0,
            PieceType::WN => 1,
            PieceType::WB => 2,
            PieceType::WR => 3,
            PieceType::WQ => 4,
            PieceType::WK => 5,
            PieceType::BP => 6,
            PieceType::BN => 7,
            PieceType::BB => 8,
            PieceType::BR => 9,
            PieceType::BQ => 10,
            PieceType::BK => 11,
            PieceType::Null => 12,
        }
    }

    /// Whether this is a piece, not the sentinel.
    pub open spec fn is_piece(self) -> bool {
        self != PieceType::Null
    }

    /// The colour of a piece.
    pub open spec fn spec_color(self) -> Color {
        if self.spec_index() < 6 {
            Color::White
        } else {
            Color::Black
        }
    }

    /// The piece of colour `side` that moves as the one numbered `role`: 0 for the pawn, then
    /// knight, bishop, rook, queen, and 5 for the king.
    pub open spec fn spec_of(side: Color, role: int) -> PieceType {
        PieceType::spec_from_index(
            match side {
                Color::White => role,
                Color::Black => role + 6,
            },
        )
    }

    /// The piece with the given number; `Null` for 12 and above.
    pub open spec fn spec_from_index(index: int) -> PieceType {
        if index == 0 {
            PieceType::WP
        } else if index == 1 {
            PieceType::WN
        } else if index == 2 {
            PieceType::WB
        } else if index == 3 {
            PieceType::WR
        } else if index == 4 {
            PieceType::WQ
        } else if index == 5 {
            PieceType::WK
        } else if index == 6 {
            PieceType::BP
        } else if index == 7 {
            PieceType::BN
        } else if index == 8 {
            PieceType::BB
        } else if index == 9 {
            PieceType::BR
        } else if index == 10 {
            PieceType::BQ
        } else if index == 11 {
            PieceType::BK
        } else {
            PieceType::Null
        }
    }

    /// The piece's number.
    pub fn index(&self) -> (r: usize)
        ensures
            r == self.spec_index(),
            r <= 12,
            self.is_piece() ==> r < 12,
    {
        match *self {
            PieceType::WP => 0,
            PieceType::WN => 1,
            PieceType::WB => 2,
            PieceType::WR => 3,
            PieceType::WQ => 4,
            PieceType::WK => 5,
            PieceType::BP => 6,
            PieceType::BN => 7,
            PieceType::BB => 8,
            PieceType::BR => 9,
            PieceType::BQ => 10,
            PieceType::BK => 11,
            PieceType::Null => 12,
        }
    }

    /// The piece with the given number; `Null` for 12 and above.
    pub fn from_index(index: u8) -> (r: PieceType)
        ensures
            r == PieceType::spec_from_index(index as int),
            index <= 12 ==> r.spec_index() == index,
    {
        match index {
            0 => PieceType::WP,
            1 => PieceType::WN,
            2 => PieceType::WB,
            3 => PieceType::WR,
            4 => PieceType::WQ,
            5 => PieceType::WK,
            6 => PieceType::BP,
            7 => PieceType::BN,
            8 => PieceType::BB,
            9 => PieceType::BR,
            10 => PieceType::BQ,
            11 => PieceType::BK,
            _ => PieceType::Null,
        }
    }

    /// The colour of a piece.
    pub fn color(&self) -> (r: Color)
        requires
            self.is_piece(),
        ensures
            r == self.spec_color(),
    {
        if self.index() < 6 {
            Color::White
        } else {
            Color::Black
        }
    }

    /// The letter that marks the piece on a printed board: upper case for White, lower case
    /// for Black, and a dot for no piece.
    pub open spec fn spec_text(self) -> Seq<char> {
        match self {
            PieceType::WP => "P"@,
            PieceType::WN => "N"@,
            PieceType::WB => "B"@,
            PieceType::WR => "R"@,
            PieceType::WQ => "Q"@,
            PieceType::WK => "K"@,
            PieceType::BP => "p"@,
            PieceType::BN => "n"@,
            PieceType::BB => "b"@,
            PieceType::BR => "r"@,
            PieceType::BQ => "q"@,
            PieceType::BK => "k"@,
            PieceType::Null => "."@,
        }
    }

    /// The letter that marks the piece on a printed board.
    pub fn to_str(&self) -> (r: &'static str)
        ensures
            r@ == self.spec_text(),
    {
        match *self {
            PieceType::WP => "P",
            PieceType::WN => "N",
            PieceType::WB => "B",
            PieceType::WR => "R",
            PieceType::WQ => "Q",
            PieceType::WK => "K",
            PieceType::BP => "p",
            PieceType::BN => "n",
            PieceType::BB => "b",
            PieceType::BR => "r",
            PieceType::BQ => "q",
            PieceType::BK => "k",
            PieceType::Null => ".",
        }
    }
}

} // verus!
