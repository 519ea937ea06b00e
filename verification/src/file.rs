use vstd::prelude::*;

verus! {

/// A file of the board, from the a-file to the h-file.
#[derive(Clone, Copy, Debug, PartialEq, Eq, Structural)]
pub enum File {
    FA,
    FB,
    FC,
    FD,
    FE,
    FF,
    FG,
    FH,
}

impl File {
    /// The file's number: 0 for the a-file up to 7 for the h-file.
    pub open spec fn spec_index(self) -> int {
        match self {
            File::FA => 0,
            File::FB => 1,
            File::FC => 2,
            File::FD => 3,
            File::FE => 4,
            File::FF => 5,
            File::FG => 6,
            File::FH => 7,
        }
    }

    /// The file with the given number.
    pub open spec fn spec_of(index: int) -> File {
        if index == 0 {
            File::FA
        } else if index == 1 {
            File::FB
        } else if index == 2 {
            File::FC
        } else if index == 3 {
            File::FD
        } else if index == 4 {
            File::FE
        } else if index == 5 {
            File::FF
        } else if index == 6 {
            File::FG
        } else {
            File::FH
        }
    }

    /// The file with the given number.
    pub fn from(number: u8) -> (r: File)
        requires
            number < 8,
        ensures
            r.spec_index() == number,
            r == File::spec_of(number as int),
    {
        match number {
            0 => File::FA,
            1 => File::FB,
            2 => File::FC,
            3 => File::FD,
            4 => File::FE,
            5 => File::FF,
            6 => File::FG,
            _ => File::FH,
        }
    }

    /// The file's number.
    pub fn index(&self) -> (r: u8)
        ensures
            r == self.spec_index(),
            r < 8,
    {
        match *self {
            File::FA => 0,
            File::FB => 1,
            File::FC => 2,
            File::FD => 3,
            File::FE => 4,
            File::FF => 5,
            File::FG => 6,
            File::FH => 7,
        }
    }

    /// The file's letter, `a` to `h`.
    pub open spec fn spec_text(self) -> Seq<char> {
        match self {
            File::FA => "a"@,
            File::FB => "b"@,
            File::FC => "c"@,
            File::FD => "d"@,
            File::FE => "e"@,
            File::FF => "f"@,
            File::FG => "g"@,
            File::FH => "h"@,
        }
    }

    /// The file's letter.
    pub fn to_str(&self) -> (r: &'static str)
        ensures
            r@ == self.spec_text(),
    {
        match *self {
            File::FA => "a",
            File::FB => "b",
            File::FC => "c",
            File::FD => "d",
            File::FE => "e",
            File::FF => "f",
            File::FG => "g",
            File::FH => "h",
        }
    }
}

} // verus!
