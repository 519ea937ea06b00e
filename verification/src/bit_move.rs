use vstd::prelude::*;
use crate::piece::PieceType;
use crate::square::Square;

verus! {

/// What a move does besides taking a piece from one square to another.
#[derive(Clone, Copy, Debug, PartialEq, Eq, Structural)]
pub enum MoveFlag {
    Null,
    WDoublePawn,
    BDoublePawn,
    WEnPassant,
    BEnPassant,
    WKCastle,
    WQCastle,
    BKCastle,
    BQCastle,
    PromoN,
    PromoB,
    PromoR,
    PromoQ,
}

impl MoveFlag {
    /// The flag's number, 0 for `Null` up to 12 for `PromoQ`.
    pub open spec fn spec_index(self) -> int {
        match self {
            MoveFlag::Null => 0,
            MoveFlag::WDoublePawn => 1,
            MoveFlag::BDoublePawn => 2,
            MoveFlag::WEnPassant => 3,
            MoveFlag::BEnPassant => 4,
            MoveFlag::WKCastle => 5,
            MoveFlag::WQCastle => 6,
            MoveFlag::BKCastle => 7,
            MoveFlag::BQCastle => 8,
            MoveFlag::PromoN => 9,
            MoveFlag::PromoB => 10,
            MoveFlag::PromoR => 11,
            MoveFlag::PromoQ => 12,
        }
    }

    /// The flag with the given number; `Null` for 13 and above.
    pub open spec fn spec_from_index(index: int) -> MoveFlag {
        if index == 1 {
            MoveFlag::WDoublePawn
        } else if index == 2 {
            MoveFlag::BDoublePawn
        } else if index == 3 {
            MoveFlag::WEnPassant
        } else if index == 4 {
            MoveFlag::BEnPassant
        } else if index == 5 {
            MoveFlag::WKCastle
        } else if index == 6 {
            MoveFlag::WQCastle
        } else if index == 7 {
            MoveFlag::BKCastle
        } else if index == 8 {
            MoveFlag::BQCastle
        } else if index == 9 {
            MoveFlag::PromoN
        } else if index == 10 {
            MoveFlag::PromoB
        } else if index == 11 {
            MoveFlag::PromoR
        } else if index == 12 {
            MoveFlag::PromoQ
        } else {
            MoveFlag::Null
        }
    }

    /// Whether the flag is one of the four promotions.
    pub open spec fn is_promotion(self) -> bool {
        self.spec_index() >= 9
    }

    /// The flag's number.
    pub fn index(&self) -> (r: u8)
        ensures
            r == self.spec_index(),
            r <= 12,
    {
        match *self {
            MoveFlag::Null => 0,
            MoveFlag::WDoublePawn => 1,
            MoveFlag::BDoublePawn => 2,
            MoveFlag::WEnPassant => 3,
            MoveFlag::BEnPassant => 4,
            MoveFlag::WKCastle => 5,
            MoveFlag::WQCastle => 6,
            MoveFlag::BKCastle => 7,
            MoveFlag::BQCastle => 8,
            MoveFlag::PromoN => 9,
            MoveFlag::PromoB => 10,
            MoveFlag::PromoR => 11,
            MoveFlag::PromoQ => 12,
        }
    }

    /// The flag with the given number; `Null` for 13 and above.
    pub fn from_index(index: u8) -> (r: MoveFlag)
        ensures
            r == MoveFlag::spec_from_index(index as int),
            index <= 12 ==> r.spec_index() == index,
    {
        match index {
            1 => MoveFlag::WDoublePawn,
            2 => MoveFlag::BDoublePawn,
            3 => MoveFlag::WEnPassant,
            4 => MoveFlag::BEnPassant,
            5 => MoveFlag::WKCastle,
            6 => MoveFlag::WQCastle,
            7 => MoveFlag::BKCastle,
            8 => MoveFlag::BQCastle,
            9 => MoveFlag::PromoN,
            10 => MoveFlag::PromoB,
            11 => MoveFlag::PromoR,
            12 => MoveFlag::PromoQ,
            _ => MoveFlag::Null,
        }
    }
}

/// A move packed into one word. From the lowest bit up: six bits of source square, six of
/// target square, four of the moving piece, four of the captured piece, four of the flag.
#[derive(Clone, Copy, Debug, PartialEq, Eq, Structural)]
pub struct BitMove(pub u32);

/// The word that packs the five fields, each given by its number.
pub open spec fn pack(source: int, target: int, piece: int, capture: int, flag: int) -> int {
    source + target * 64 + piece * 4096 + capture * 65536 + flag * 1048576
}

proof fn lemma_pack_fields(s: u32, t: u32, p: u32, c: u32, f: u32)
    by (bit_vector)
    requires
        s < 64,
        t < 64,
        p < 16,
        c < 16,
        f < 16,
    ensures
        s + t * 64 + p * 4096 + c * 65536 + f * 1048576 < 0x100_0000,
        ({
            let x = (s + t * 64 + p * 4096 + c * 65536 + f * 1048576) as u32;
            &&& x % 64 == s
            &&& (x / 64) % 64 == t
            &&& (x / 4096) % 16 == p
            &&& (x / 65536) % 16 == c
            &&& (x / 1048576) % 16 == f
        }),
{
}

impl BitMove {
    /// The square the piece leaves.
    pub open spec fn spec_source(self) -> Square {
        Square((self.0 % 64) as u8)
    }

    /// The square the piece lands on.
    pub open spec fn spec_target(self) -> Square {
        Square(((self.0 / 64) % 64) as u8)
    }

    /// The piece that moves.
    pub open spec fn spec_piece(self) -> PieceType {
        PieceType::spec_from_index(((self.0 / 4096) % 16) as int)
    }

    /// The piece that is taken, `Null` when none is.
    pub open spec fn spec_capture(self) -> PieceType {
        PieceType::spec_from_index(((self.0 / 65536) % 16) as int)
    }

    /// The flag.
    pub open spec fn spec_flag(self) -> MoveFlag {
        MoveFlag::spec_from_index(((self.0 / 1048576) % 16) as int)
    }

    /// The move that packs the five fields.
    pub open spec fn spec_encode(
        source: Square,
        target: Square,
        piece: PieceType,
        capture: PieceType,
        flag: MoveFlag,
    ) -> BitMove {
        BitMove(
            pack(
                source.0 as int,
                target.0 as int,
                piece.spec_index(),
                capture.spec_index(),
                flag.spec_index(),
            ) as u32,
        )
    }

    /// Packs the five fields into a move. Each field is read back unchanged.
    pub fn encode(
        source: Square,
        target: Square,
        piece: PieceType,
        capture: PieceType,
        flag: MoveFlag,
    ) -> (r: BitMove)
        requires
            source.is_some(),
            target.is_some(),
        ensures
            r == BitMove::spec_encode(source, target, piece, capture, flag),
            r.spec_source() == source,
            r.spec_target() == target,
            r.spec_piece() == piece,
            r.spec_capture() == capture,
            r.spec_flag() == flag,
    {
        let s: u32 = source.0 as u32;
        let t: u32 = target.0 as u32;
        let p: u32 = piece.index() as u32;
        let c: u32 = capture.index() as u32;
        let f: u32 = flag.index() as u32;
        proof {
            lemma_pack_fields(s, t, p, c, f);
        }
        BitMove(s + t * 64 + p * 4096 + c * 65536 + f * 1048576)
    }

    /// Unpacks the move into source, target, moving piece, captured piece and flag.
    pub fn decode(&self) -> (r: (Square, Square, PieceType, PieceType, MoveFlag))
        ensures
            r.0 == self.spec_source(),
            r.1 == self.spec_target(),
            r.2 == self.spec_piece(),
            r.3 == self.spec_capture(),
            r.4 == self.spec_flag(),
            r.0.is_some(),
            r.1.is_some(),
    {
        let x: u32 = self.0;
        (
            Square((x % 64) as u8),
            Square(((x / 64) % 64) as u8),
            PieceType::from_index(((x / 4096) % 16) as u8),
            PieceType::from_index(((x / 65536) % 16) as u8),
            MoveFlag::from_index(((x / 1048576) % 16) as u8),
        )
    }
}

/// Packing then unpacking gives the five fields back.
pub proof fn lemma_decode_encode(
    source: Square,
    target: Square,
    piece: PieceType,
    capture: PieceType,
    flag: MoveFlag,
)
    requires
        source.is_some(),
        target.is_some(),
    ensures
        ({
            let m = BitMove::spec_encode(source, target, piece, capture, flag);
            &&& m.spec_source() == source
            &&& m.spec_target() == target
            &&& m.spec_piece() == piece
            &&& m.spec_capture() == capture
            &&& m.spec_flag() == flag
        }),
{
    lemma_pack_fields(
        source.0 as u32,
        target.0 as u32,
        piece.spec_index() as u32,
        capture.spec_index() as u32,
        flag.spec_index() as u32,
    );
}

} // verus!
