use vstd::prelude::*;
use crate::bit_move::{BitMove, MoveFlag};
use crate::bits::{bit_at, single};
use crate::castling_rights::CastlingRights;
use crate::color::Color;
use crate::move_init::{bishop_attacks, king_mask, knight_mask, pawn_capture_mask, rook_attacks};
use crate::move_masks::queen_attacks;
use crate::piece::PieceType;
use crate::square::Square;

verus! {

/// A position as a value: the twelve piece boards by piece number, the side to move, the
/// en-passant square and the castling rights. The occupancies follow from the piece boards.
pub struct Board {
    pub pieces: Seq<u64>,
    pub side: Color,
    pub en_passant: Square,
    pub rights: CastlingRights,
}

/// The word `x` with square `sq` put in.
pub open spec fn with_square(x: u64, sq: Square) -> u64 {
    x | single(sq.0 as u64)
}

/// The word `x` with square `sq` taken out.
pub open spec fn without_square(x: u64, sq: Square) -> u64 {
    x & !single(sq.0 as u64)
}

/// The piece a pawn of `side` becomes under a promotion flag.
pub open spec fn promoted_piece(side: Color, flag: MoveFlag) -> PieceType {
    match flag {
        MoveFlag::PromoN => PieceType::spec_of(side, 1),
        MoveFlag::PromoB => PieceType::spec_of(side, 2),
        MoveFlag::PromoR => PieceType::spec_of(side, 3),
        _ => PieceType::spec_of(side, 4),
    }
}

impl Board {
    /// The board of piece `p`.
    pub open spec fn bb(self, p: PieceType) -> u64 {
        self.pieces[p.spec_index()]
    }

    /// Whether piece `p` stands on square `sq`.
    pub open spec fn holds(self, p: PieceType, sq: u64) -> bool {
        bit_at(self.bb(p), sq)
    }

    /// The squares that hold a white piece.
    pub open spec fn white(self) -> u64 {
        self.pieces[0] | self.pieces[1] | self.pieces[2] | self.pieces[3] | self.pieces[4]
            | self.pieces[5]
    }

    /// The squares that hold a black piece.
    pub open spec fn black(self) -> u64 {
        self.pieces[6] | self.pieces[7] | self.pieces[8] | self.pieces[9] | self.pieces[10]
            | self.pieces[11]
    }

    /// The squares that hold a piece.
    pub open spec fn all(self) -> u64 {
        self.white() | self.black()
    }

    /// The squares that hold a piece of `side`.
    pub open spec fn occupied_by(self, side: Color) -> u64 {
        match side {
            Color::White => self.white(),
            Color::Black => self.black(),
        }
    }

    /// The position with piece `p` put on square `sq`.
    pub open spec fn set(self, p: PieceType, sq: Square) -> Board {
        Board {
            pieces: self.pieces.update(p.spec_index(), with_square(self.bb(p), sq)),
            ..self
        }
    }

    /// The position with piece `p` taken from square `sq`.
    pub open spec fn remove(self, p: PieceType, sq: Square) -> Board {
        Board {
            pieces: self.pieces.update(p.spec_index(), without_square(self.bb(p), sq)),
            ..self
        }
    }

    /// Whether a piece of the listed six attacks square `sq`, where `defender` is the side
    /// that stands to lose the square and `enemy` lists the attacker's pawn, knight, bishop,
    /// rook, queen and king in this order. A pawn attacks `sq` when it stands where a pawn
    /// of `defender` on `sq` would capture to.
    pub open spec fn attacked_with(self, sq: Square, defender: Color, enemy: Seq<PieceType>) -> bool {
        let occ = self.all() & !single(sq.0 as u64);
        let s = sq.0 as int;
        ||| pawn_capture_mask(defender, s) & self.bb(enemy[0]) != 0
        ||| knight_mask(s) & self.bb(enemy[1]) != 0
        ||| bishop_attacks(s, occ) & self.bb(enemy[2]) != 0
        ||| rook_attacks(s, occ) & self.bb(enemy[3]) != 0
        ||| queen_attacks(s, occ) & self.bb(enemy[4]) != 0
        ||| king_mask(s) & self.bb(enemy[5]) != 0
    }

    /// Whether a piece of `attacker` attacks square `sq`.
    pub open spec fn attacked_by(self, sq: Square, attacker: Color) -> bool {
        self.attacked_with(sq, attacker.spec_opposite(), pieces_of(attacker))
    }

    /// The square of the king of `side`: the lowest square of its board, the sentinel when
    /// the board is empty.
    pub open spec fn king_square(self, side: Color) -> Square {
        Square(crate::bits::lowest(self.bb(PieceType::spec_of(side, 5))) as u8)
    }

    /// The pieces after the move `m`: the piece goes from source to target, a captured piece
    /// leaves the target, and the flag's extra work is done. Side, en-passant square and
    /// rights are still those of before.
    pub open spec fn placed(self, m: BitMove) -> Board {
        let source = m.spec_source();
        let target = m.spec_target();
        let piece = m.spec_piece();
        let capture = m.spec_capture();
        let flag = m.spec_flag();
        let moved = self.remove(piece, source).set(piece, target);
        let taken = if capture != PieceType::Null {
            moved.remove(capture, target)
        } else {
            moved
        };
        match flag {
            MoveFlag::Null | MoveFlag::WDoublePawn | MoveFlag::BDoublePawn => taken,
            MoveFlag::WEnPassant => taken.remove(PieceType::BP, Square((target.0 + 8) as u8)),
            MoveFlag::BEnPassant => taken.remove(PieceType::WP, Square((target.0 - 8) as u8)),
            MoveFlag::WKCastle => taken.remove(PieceType::WR, Square(Square::H1)).set(
                PieceType::WR,
                Square(Square::F1),
            ),
            MoveFlag::WQCastle => taken.remove(PieceType::WR, Square(Square::A1)).set(
                PieceType::WR,
                Square(Square::D1),
            ),
            MoveFlag::BKCastle => taken.remove(PieceType::BR, Square(Square::H8)).set(
                PieceType::BR,
                Square(Square::F8),
            ),
            MoveFlag::BQCastle => taken.remove(PieceType::BR, Square(Square::A8)).set(
                PieceType::BR,
                Square(Square::D8),
            ),
            _ => taken.remove(piece, target).set(promoted_piece(self.side, flag), target),
        }
    }

    /// The position after the move `m`, before anyone asks whether the mover's king is safe:
    /// the pieces are placed, the rights are updated, the en-passant square is set behind a
    /// pawn that made a double push, and the move passes to the other side.
    pub open spec fn apply(self, m: BitMove) -> Board {
        let source = m.spec_source();
        let target = m.spec_target();
        Board {
            pieces: self.placed(m).pieces,
            side: self.side.spec_opposite(),
            en_passant: match m.spec_flag() {
                MoveFlag::WDoublePawn => Square((target.0 + 8) as u8),
                MoveFlag::BDoublePawn => Square((target.0 - 8) as u8),
                _ => Square(Square::NONE),
            },
            rights: self.rights.spec_update(source, target),
        }
    }

    /// The pieces with the move `m` taken back: the piece returns from target to source, a
    /// captured piece returns to the target, and the flag's extra work is undone. The side
    /// to move is the one that did not make the move.
    pub open spec fn unplaced(self, m: BitMove) -> Board {
        let source = m.spec_source();
        let target = m.spec_target();
        let piece = m.spec_piece();
        let capture = m.spec_capture();
        let flag = m.spec_flag();
        let mover = self.side.spec_opposite();
        let moved = self.remove(piece, target).set(piece, source);
        let restored = if capture != PieceType::Null {
            moved.set(capture, target)
        } else {
            moved
        };
        match flag {
            MoveFlag::Null | MoveFlag::WDoublePawn | MoveFlag::BDoublePawn => restored,
            MoveFlag::WEnPassant => restored.set(PieceType::BP, Square((target.0 + 8) as u8)),
            MoveFlag::BEnPassant => restored.set(PieceType::WP, Square((target.0 - 8) as u8)),
            MoveFlag::WKCastle => restored.set(PieceType::WR, Square(Square::H1)).remove(
                PieceType::WR,
                Square(Square::F1),
            ),
            MoveFlag::WQCastle => restored.set(PieceType::WR, Square(Square::A1)).remove(
                PieceType::WR,
                Square(Square::D1),
            ),
            MoveFlag::BKCastle => restored.set(PieceType::BR, Square(Square::H8)).remove(
                PieceType::BR,
                Square(Square::F8),
            ),
            MoveFlag::BQCastle => restored.set(PieceType::BR, Square(Square::A8)).remove(
                PieceType::BR,
                Square(Square::D8),
            ),
            _ => restored.remove(promoted_piece(mover, flag), target),
        }
    }

    /// The position with the move `m` taken back and the castling rights set to `rights`.
    /// The en-passant square comes back only for an en-passant capture.
    pub open spec fn undo(self, m: BitMove, rights: CastlingRights) -> Board {
        Board {
            pieces: self.unplaced(m).pieces,
            side: self.side.spec_opposite(),
            en_passant: match m.spec_flag() {
                MoveFlag::WEnPassant | MoveFlag::BEnPassant => m.spec_target(),
                _ => Square(Square::NONE),
            },
            rights: rights,
        }
    }
}

/// The six pieces of `side`: pawn, knight, bishop, rook, queen, king.
pub open spec fn pieces_of(side: Color) -> Seq<PieceType> {
    match side {
        Color::White => PieceType::WHITE_PIECES@,
        Color::Black => PieceType::BLACK_PIECES@,
    }
}

impl Board {
    /// What `make_move` needs of a move to do its work: the mover is a piece of the side to
    /// move and stands on the source, a captured piece is of the other side and stands on
    /// the target, the square an en-passant or double-push flag speaks of is on the board,
    /// and the mover's king is still there after the move.
    pub open spec fn permits(self, m: BitMove) -> bool {
        let target = m.spec_target();
        let piece = m.spec_piece();
        let capture = m.spec_capture();
        let flag = m.spec_flag();
        &&& self.pieces.len() == 12
        &&& piece.is_piece()
        &&& piece.spec_color() == self.side
        &&& self.holds(piece, m.spec_source().0 as u64)
        &&& capture.is_piece() ==> capture.spec_color() == self.side.spec_opposite()
            && self.holds(capture, target.0 as u64)
        &&& flag == MoveFlag::WDoublePawn || flag == MoveFlag::WEnPassant ==> target.0 < 56
        &&& flag == MoveFlag::BDoublePawn || flag == MoveFlag::BEnPassant ==> target.0 >= 8
        &&& self.apply(m).bb(PieceType::spec_of(self.side, 5)) != 0
    }

    /// What `undo_move` needs of a move to do its work: the mover is a piece of the side
    /// that is not to move, a captured piece is of the side to move, and the square an
    /// en-passant flag speaks of is on the board.
    pub open spec fn permits_undo(self, m: BitMove) -> bool {
        let target = m.spec_target();
        let piece = m.spec_piece();
        let capture = m.spec_capture();
        let flag = m.spec_flag();
        &&& self.pieces.len() == 12
        &&& piece.is_piece()
        &&& piece.spec_color() == self.side.spec_opposite()
        &&& capture.is_piece() ==> capture.spec_color() == self.side
        &&& flag == MoveFlag::WEnPassant ==> target.0 < 56
        &&& flag == MoveFlag::BEnPassant ==> target.0 >= 8
    }
}

} // verus!
