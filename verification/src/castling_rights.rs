use vstd::prelude::*;
use vstd::string::*;
use crate::square::Square;

verus! {

/// For each square, the rights that survive a move from or to it.
pub const INDEX_2_CASTLING_RIGHTS: [u8; 64] = [
    0b0111, 0b1111, 0b1111, 0b1111, 0b0011, 0b1111, 0b1111, 0b1011,
    0b1111, 0b1111, 0b1111, 0b1111, 0b1111, 0b1111, 0b1111, 0b1111,
    0b1111, 0b1111, 0b1111, 0b1111, 0b1111, 0b1111, 0b1111, 0b1111,
    0b1111, 0b1111, 0b1111, 0b1111, 0b1111, 0b1111, 0b1111, 0b1111,
    0b1111, 0b1111, 0b1111, 0b1111, 0b1111, 0b1111, 0b1111, 0b1111,
    0b1111, 0b1111, 0b1111, 0b1111, 0b1111, 0b1111, 0b1111, 0b1111,
    0b1111, 0b1111, 0b1111, 0b1111, 0b1111, 0b1111, 0b1111, 0b1111,
    0b1101, 0b1111, 0b1111, 0b1111, 0b1100, 0b1111, 0b1111, 0b1110,
];

/// The four castling rights as a mask: White king side, White queen side, Black king side,
/// Black queen side, from the lowest bit up.
#[derive(Clone, Copy, Debug, PartialEq, Eq, Structural)]
pub struct CastlingRights {
    pub data: u8,
}

/// The rights that survive a move from or to square `sq`: all of them, but for the home
/// squares of the kings and rooks.
pub open spec fn surviving_rights(sq: int) -> u8 {
    if sq == Square::A8 {
        0b0111
    } else if sq == Square::E8 {
        0b0011
    } else if sq == Square::H8 {
        0b1011
    } else if sq == Square::A1 {
        0b1101
    } else if sq == Square::E1 {
        0b1100
    } else if sq == Square::H1 {
        0b1110
    } else {
        0b1111
    }
}

proof fn lemma_rights_bits(d: u8, m: u8, n: u8)
    by (bit_vector)
    ensures
        (d & (m & n)) & 1 != 0 <==> d & 1 != 0 && m & 1 != 0 && n & 1 != 0,
        (d & (m & n)) & 2 != 0 <==> d & 2 != 0 && m & 2 != 0 && n & 2 != 0,
        (d & (m & n)) & 4 != 0 <==> d & 4 != 0 && m & 4 != 0 && n & 4 != 0,
        (d & (m & n)) & 8 != 0 <==> d & 8 != 0 && m & 8 != 0 && n & 8 != 0,
        d <= 15 ==> d & (m & n) <= 15,
        0b0111u8 & 1 != 0 && 0b0111u8 & 2 != 0 && 0b0111u8 & 4 != 0 && 0b0111u8 & 8 == 0,
        0b0011u8 & 1 != 0 && 0b0011u8 & 2 != 0 && 0b0011u8 & 4 == 0 && 0b0011u8 & 8 == 0,
        0b1011u8 & 1 != 0 && 0b1011u8 & 2 != 0 && 0b1011u8 & 4 == 0 && 0b1011u8 & 8 != 0,
        0b1101u8 & 1 != 0 && 0b1101u8 & 2 == 0 && 0b1101u8 & 4 != 0 && 0b1101u8 & 8 != 0,
        0b1100u8 & 1 == 0 && 0b1100u8 & 2 == 0 && 0b1100u8 & 4 != 0 && 0b1100u8 & 8 != 0,
        0b1110u8 & 1 == 0 && 0b1110u8 & 2 != 0 && 0b1110u8 & 4 != 0 && 0b1110u8 & 8 != 0,
        0b1111u8 & 1 != 0 && 0b1111u8 & 2 != 0 && 0b1111u8 & 4 != 0 && 0b1111u8 & 8 != 0,
{
}

impl CastlingRights {
    pub const DEFAULT: u8 = 0b1111;
    pub const NONE: u8 = 0b0000;
    pub const WK: u8 = 0b0001;
    pub const WQ: u8 = 0b0010;
    pub const BK: u8 = 0b0100;
    pub const BQ: u8 = 0b1000;

    /// The mask holds nothing but the four rights.
    pub open spec fn wf(self) -> bool {
        self.data <= 15
    }

    /// Whether White may still castle king side.
    pub open spec fn spec_wk(self) -> bool {
        self.data & CastlingRights::WK != 0
    }

    /// Whether White may still castle queen side.
    pub open spec fn spec_wq(self) -> bool {
        self.data & CastlingRights::WQ != 0
    }

    /// Whether Black may still castle king side.
    pub open spec fn spec_bk(self) -> bool {
        self.data & CastlingRights::BK != 0
    }

    /// Whether Black may still castle queen side.
    pub open spec fn spec_bq(self) -> bool {
        self.data & CastlingRights::BQ != 0
    }

    /// The rights left of `self` after a move from `source` to `target`.
    pub open spec fn spec_update(self, source: Square, target: Square) -> CastlingRights {
        CastlingRights {
            data: self.data & (surviving_rights(source.0 as int) & surviving_rights(
                target.0 as int,
            )),
        }
    }

    /// All four rights.
    pub fn all() -> (r: CastlingRights)
        ensures
            r.data == CastlingRights::DEFAULT,
    {
        CastlingRights { data: CastlingRights::DEFAULT }
    }

    /// No right.
    pub fn none() -> (r: CastlingRights)
        ensures
            r.data == CastlingRights::NONE,
    {
        CastlingRights { data: CastlingRights::NONE }
    }

    /// Removes the rights that a move from `source` to `target` ends: a right goes when its
    /// king or its rook leaves the home square, or when something lands there.
    pub fn update(&mut self, source: Square, target: Square)
        requires
            source.is_some(),
            target.is_some(),
        ensures
            *final(self) == old(self).spec_update(source, target),
            old(self).wf() ==> final(self).wf(),
            final(self).spec_wk() == (old(self).spec_wk() && source.0 != Square::E1 && source.0
                != Square::H1 && target.0 != Square::E1 && target.0 != Square::H1),
            final(self).spec_wq() == (old(self).spec_wq() && source.0 != Square::E1 && source.0
                != Square::A1 && target.0 != Square::E1 && target.0 != Square::A1),
            final(self).spec_bk() == (old(self).spec_bk() && source.0 != Square::E8 && source.0
                != Square::H8 && target.0 != Square::E8 && target.0 != Square::H8),
            final(self).spec_bq() == (old(self).spec_bq() && source.0 != Square::E8 && source.0
                != Square::A8 && target.0 != Square::E8 && target.0 != Square::A8),
    {
        let m: u8 = INDEX_2_CASTLING_RIGHTS[source.index()];
        let n: u8 = INDEX_2_CASTLING_RIGHTS[target.index()];
        proof {
            assert(m == surviving_rights(source.0 as int));
            assert(n == surviving_rights(target.0 as int));
            lemma_rights_bits(self.data, m, n);
        }
        self.data = self.data & (m & n);
    }

    /// The rights as four characters, `KQkq`, with a dash in place of a right that is gone.
    pub open spec fn spec_text(self) -> Seq<char> {
        (if self.spec_wk() {
            "K"@
        } else {
            "-"@
        }) + (if self.spec_wq() {
            "Q"@
        } else {
            "-"@
        }) + (if self.spec_bk() {
            "k"@
        } else {
            "-"@
        }) + (if self.spec_bq() {
            "q"@
        } else {
            "-"@
        })
    }

    /// The rights as four characters.
    pub fn to_string(&self) -> (r: String)
        ensures
            r@ == self.spec_text(),
    {
        let mut text = String::from_str(if self.wk() {
            "K"
        } else {
            "-"
        });
        text.append(if self.wq() {
            "Q"
        } else {
            "-"
        });
        text.append(if self.bk() {
            "k"
        } else {
            "-"
        });
        text.append(if self.bq() {
            "q"
        } else {
            "-"
        });
        text
    }

    /// Whether White may still castle king side.
    pub fn wk(&self) -> (r: bool)
        ensures
            r == self.spec_wk(),
    {
        self.data & CastlingRights::WK != 0
    }

    /// Whether White may still castle queen side.
    pub fn wq(&self) -> (r: bool)
        ensures
            r == self.spec_wq(),
    {
        self.data & CastlingRights::WQ != 0
    }

    /// Whether Black may still castle king side.
    pub fn bk(&self) -> (r: bool)
        ensures
            r == self.spec_bk(),
    {
        self.data & CastlingRights::BK != 0
    }

    /// Whether Black may still castle queen side.
    pub fn bq(&self) -> (r: bool)
        ensures
            r == self.spec_bq(),
    {
        self.data & CastlingRights::BQ != 0
    }
}

/// A right is left after a move exactly when it was there and the move neither leaves nor
/// reaches the home square of its king or of its rook.
pub proof fn lemma_spec_update(rights: CastlingRights, source: Square, target: Square)
    requires
        source.is_some(),
        target.is_some(),
    ensures
        ({
            let after = rights.spec_update(source, target);
            &&& rights.wf() ==> after.wf()
            &&& after.spec_wk() == (rights.spec_wk() && source.0 != Square::E1 && source.0
                != Square::H1 && target.0 != Square::E1 && target.0 != Square::H1)
            &&& after.spec_wq() == (rights.spec_wq() && source.0 != Square::E1 && source.0
                != Square::A1 && target.0 != Square::E1 && target.0 != Square::A1)
            &&& after.spec_bk() == (rights.spec_bk() && source.0 != Square::E8 && source.0
                != Square::H8 && target.0 != Square::E8 && target.0 != Square::H8)
            &&& after.spec_bq() == (rights.spec_bq() && source.0 != Square::E8 && source.0
                != Square::A8 && target.0 != Square::E8 && target.0 != Square::A8)
        }),
{
    lemma_rights_bits(
        rights.data,
        surviving_rights(source.0 as int),
        surviving_rights(target.0 as int),
    );
}

} // verus!
