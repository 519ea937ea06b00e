use vstd::prelude::*;
use crate::bit_move::{BitMove, MoveFlag};
use crate::bits::{bit_at, group_bits, lemma_bits_equal, lemma_lowest, lemma_zero_iff_no_bits, lowest, popcount, single, drop_lowest, lemma_drop_lowest};
use crate::board::Board;
use crate::castling_rights::lemma_spec_update;
use crate::color::Color;
use crate::piece::PieceType;
use crate::square::Square;

verus! {

/// Whether `p` is one of the two kings.
pub open spec fn is_king(p: PieceType) -> bool {
    p == PieceType::WK || p == PieceType::BK
}

impl Board {
    /// Whether some piece stands on square `t`.
    pub open spec fn occupied(self, t: u64) -> bool {
        bit_at(self.all(), t)
    }

    /// No square holds two pieces: the twelve piece boards are pairwise disjoint.
    pub open spec fn disjoint(self) -> bool {
        forall|p: PieceType, q: PieceType, t: u64|
            p.is_piece() && q.is_piece() && p != q && t < 64 ==> !(#[trigger] self.holds(p, t)
                && #[trigger] self.holds(q, t))
    }

    /// The king of `side` stands on exactly one square.
    pub open spec fn one_king(self, side: Color) -> bool {
        let king = PieceType::spec_of(side, 5);
        &&& self.king_square(side).is_some()
        &&& forall|t: u64|
            t < 64 ==> #[trigger] self.holds(king, t) == (t == self.king_square(side).0)
    }

    /// Each side has exactly one king.
    pub open spec fn one_king_each(self) -> bool {
        self.one_king(Color::White) && self.one_king(Color::Black)
    }

    /// The en-passant square, when there is one, is the empty square a pawn of the side not
    /// to move has just jumped over: on the third row from the top with that pawn below it
    /// when White is to move, on the sixth row with that pawn above it when Black is.
    pub open spec fn en_passant_ok(self) -> bool {
        let ep = self.en_passant;
        &&& ep.wf()
        &&& ep.is_some() ==> {
            &&& !self.occupied(ep.0 as u64)
            &&& match self.side {
                Color::White => ep.rank_index() == 2 && self.holds(
                    PieceType::BP,
                    (ep.0 + 8) as u64,
                ),
                Color::Black => ep.rank_index() == 5 && self.holds(
                    PieceType::WP,
                    (ep.0 - 8) as u64,
                ),
            }
        }
    }

    /// A castling right that is still there has its king and its rook on their home
    /// squares.
    pub open spec fn rights_ok(self) -> bool {
        &&& self.rights.wf()
        &&& self.rights.spec_wk() ==> self.holds(PieceType::WK, Square::E1 as u64) && self.holds(
            PieceType::WR,
            Square::H1 as u64,
        )
        &&& self.rights.spec_wq() ==> self.holds(PieceType::WK, Square::E1 as u64) && self.holds(
            PieceType::WR,
            Square::A1 as u64,
        )
        &&& self.rights.spec_bk() ==> self.holds(PieceType::BK, Square::E8 as u64) && self.holds(
            PieceType::BR,
            Square::H8 as u64,
        )
        &&& self.rights.spec_bq() ==> self.holds(PieceType::BK, Square::E8 as u64) && self.holds(
            PieceType::BR,
            Square::A8 as u64,
        )
    }

    /// The position is one of a game of chess as far as the moves rely on it.
    pub open spec fn wf(self) -> bool {
        &&& self.pieces.len() == 12
        &&& self.disjoint()
        &&& self.one_king_each()
        &&& self.en_passant_ok()
        &&& self.rights_ok()
    }

    /// Whether the five fields of a move fit each other and the board: the mover is a piece
    /// of the side to move on the source, a captured piece is one of the other side on the
    /// target, a target without capture is empty, and the flag's own conditions hold.
    pub open spec fn fits(
        self,
        source: Square,
        target: Square,
        piece: PieceType,
        capture: PieceType,
        flag: MoveFlag,
    ) -> bool {
        let side = self.side;
        let s = source.0 as u64;
        let t = target.0 as u64;
        &&& source.is_some()
        &&& target.is_some()
        &&& piece.is_piece()
        &&& piece.spec_color() == side
        &&& self.holds(piece, s)
        &&& s != t
        &&& if capture.is_piece() {
            &&& capture.spec_color() == side.spec_opposite()
            &&& self.holds(capture, t)
            &&& flag == MoveFlag::Null || flag.is_promotion()
        } else {
            !self.occupied(t)
        }
        &&& match flag {
            MoveFlag::Null => true,
            MoveFlag::WDoublePawn => side == Color::White && piece == PieceType::WP
                && source.rank_index() == 6 && t == s - 16 && !self.occupied((s - 8) as u64),
            MoveFlag::BDoublePawn => side == Color::Black && piece == PieceType::BP
                && source.rank_index() == 1 && t == s + 16 && !self.occupied((s + 8) as u64),
            MoveFlag::WEnPassant => side == Color::White && piece == PieceType::WP
                && self.en_passant.is_some() && target == self.en_passant,
            MoveFlag::BEnPassant => side == Color::Black && piece == PieceType::BP
                && self.en_passant.is_some() && target == self.en_passant,
            MoveFlag::WKCastle => side == Color::White && piece == PieceType::WK && s
                == Square::E1 && t == Square::G1 && self.holds(PieceType::WR, Square::H1 as u64)
                && !self.occupied(Square::F1 as u64),
            MoveFlag::WQCastle => side == Color::White && piece == PieceType::WK && s
                == Square::E1 && t == Square::C1 && self.holds(PieceType::WR, Square::A1 as u64)
                && !self.occupied(Square::D1 as u64),
            MoveFlag::BKCastle => side == Color::Black && piece == PieceType::BK && s
                == Square::E8 && t == Square::G8 && self.holds(PieceType::BR, Square::H8 as u64)
                && !self.occupied(Square::F8 as u64),
            MoveFlag::BQCastle => side == Color::Black && piece == PieceType::BK && s
                == Square::E8 && t == Square::C8 && self.holds(PieceType::BR, Square::A8 as u64)
                && !self.occupied(Square::D8 as u64),
            _ => piece == PieceType::spec_of(side, 0),
        }
    }

    /// The squares that the piece of role `role` of the side to move strikes from `source`:
    /// a pawn's two capture squares, another piece's attack set.
    pub open spec fn strike_set(self, role: int, source: Square) -> u64 {
        if role == 0 {
            crate::move_init::pawn_capture_mask(self.side, source.0 as int)
        } else {
            self.attack_set(role, source)
        }
    }

    /// Whether the piece of role `role` of the side to move stands on `s` and strikes `t`
    /// from there.
    pub open spec fn strikes(self, role: int, s: u64, t: u64) -> bool {
        &&& 0 <= role <= 5
        &&& s < 64
        &&& self.holds(PieceType::spec_of(self.side, role), s)
        &&& bit_at(self.strike_set(role, Square(s as u8)), t)
    }

    /// A move that captures is aimed: some piece of the side to move strikes its target.
    pub open spec fn aimed(self, m: BitMove) -> bool {
        m.spec_capture().is_piece() ==> exists|role: int, s: u64| #[trigger]
            self.strikes(role, s, m.spec_target().0 as u64)
    }

    /// The king of the side that is not to move is not attacked: the side that moved last
    /// did not leave its king to be taken.
    pub open spec fn safe(self) -> bool {
        !self.attacked_by(self.king_square(self.side.spec_opposite()), self.side)
    }

    /// The position is one that a game can reach: it is well formed and the side that moved
    /// last did not leave its king attacked.
    pub open spec fn legal(self) -> bool {
        self.wf() && self.safe()
    }

    /// What the position asks of a move before it can be made: its fields fit each other and
    /// the board, as they do for every move that is generated.
    pub open spec fn accepts(self, m: BitMove) -> bool {
        self.fits(m.spec_source(), m.spec_target(), m.spec_piece(), m.spec_capture(), m.spec_flag())
    }
}

/// A move packed from fields that fit the board is accepted.
pub proof fn lemma_fitting_is_accepted(
    b: Board,
    source: Square,
    target: Square,
    piece: PieceType,
    capture: PieceType,
    flag: MoveFlag,
)
    requires
        b.fits(source, target, piece, capture, flag),
    ensures
        b.accepts(BitMove::spec_encode(source, target, piece, capture, flag)),
        BitMove::spec_encode(source, target, piece, capture, flag).spec_capture() == capture,
        BitMove::spec_encode(source, target, piece, capture, flag).spec_target() == target,
{
    crate::bit_move::lemma_decode_encode(source, target, piece, capture, flag);
}

/// A square is occupied exactly when one of the twelve pieces stands on it.
pub proof fn lemma_occupied(b: Board, t: u64)
    requires
        b.pieces.len() == 12,
        t < 64,
    ensures
        b.occupied(t) == (exists|p: PieceType| p.is_piece() && #[trigger] b.holds(p, t)),
        bit_at(b.white(), t) == (exists|p: PieceType|
            p.is_piece() && p.spec_color() == Color::White && #[trigger] b.holds(p, t)),
        bit_at(b.black(), t) == (exists|p: PieceType|
            p.is_piece() && p.spec_color() == Color::Black && #[trigger] b.holds(p, t)),
{
    broadcast use group_bits;
    if bit_at(b.white(), t) {
        if b.holds(PieceType::WP, t) {
        } else if b.holds(PieceType::WN, t) {
        } else if b.holds(PieceType::WB, t) {
        } else if b.holds(PieceType::WR, t) {
        } else if b.holds(PieceType::WQ, t) {
        } else {
            assert(b.holds(PieceType::WK, t));
        }
    }
    if bit_at(b.black(), t) {
        if b.holds(PieceType::BP, t) {
        } else if b.holds(PieceType::BN, t) {
        } else if b.holds(PieceType::BB, t) {
        } else if b.holds(PieceType::BR, t) {
        } else if b.holds(PieceType::BQ, t) {
        } else {
            assert(b.holds(PieceType::BK, t));
        }
    }
}

/// After a piece is put on a square, a piece stands on a square when it did before or it
/// is that piece on that square.
pub broadcast proof fn lemma_set_holds(b: Board, p: PieceType, sq: Square, q: PieceType, t: u64)
    requires
        b.pieces.len() == 12,
        p.is_piece(),
        q.is_piece(),
        sq.is_some(),
        t < 64,
    ensures
        #[trigger] b.set(p, sq).holds(q, t) == (b.holds(q, t) || (q == p && t == sq.0)),
{
    broadcast use group_bits;
}

/// After a piece is taken from a square, a piece stands on a square when it did before and
/// it is not that piece on that square.
pub broadcast proof fn lemma_remove_holds(
    b: Board,
    p: PieceType,
    sq: Square,
    q: PieceType,
    t: u64,
)
    requires
        b.pieces.len() == 12,
        p.is_piece(),
        q.is_piece(),
        sq.is_some(),
        t < 64,
    ensures
        #[trigger] b.remove(p, sq).holds(q, t) == (b.holds(q, t) && !(q == p && t == sq.0)),
{
    broadcast use group_bits;
}

pub broadcast group group_holds {
    lemma_set_holds,
    lemma_remove_holds,
}

/// A board with exactly the bit `k` set has `k` as its lowest square.
pub proof fn lemma_only_square(x: u64, k: u64)
    requires
        k < 64,
        forall|t: u64| t < 64 ==> #[trigger] bit_at(x, t) == (t == k),
    ensures
        x == single(k),
        lowest(x) == k,
        popcount(x) == 1,
{
    broadcast use group_bits;
    assert(bit_at(x, k));
    lemma_zero_iff_no_bits(x);
    lemma_lowest(x);
    let l = lowest(x);
    assert(bit_at(x, l));
    lemma_drop_lowest(x);
    assert forall|t: u64| t < 64 implies !#[trigger] bit_at(drop_lowest(x), t) by {}
    lemma_zero_iff_no_bits(drop_lowest(x));
    assert(popcount(drop_lowest(x)) == 0);
    assert forall|t: u64| t < 64 implies bit_at(x, t) == bit_at(single(k), t) by {}
    lemma_bits_equal(x, single(k));
}

/// In a position with one king each, the kings' boards hold one square each.
pub proof fn lemma_kings_counted(b: Board)
    requires
        b.one_king_each(),
    ensures
        popcount(b.bb(PieceType::WK)) == 1,
        popcount(b.bb(PieceType::BK)) == 1,
{
    assert forall|t: u64| t < 64 implies #[trigger] bit_at(b.bb(PieceType::WK), t) == (t
        == b.king_square(Color::White).0) by {
        assert(b.holds(PieceType::WK, t) == (t == b.king_square(Color::White).0));
    }
    assert forall|t: u64| t < 64 implies #[trigger] bit_at(b.bb(PieceType::BK), t) == (t
        == b.king_square(Color::Black).0) by {
        assert(b.holds(PieceType::BK, t) == (t == b.king_square(Color::Black).0));
    }
    lemma_only_square(b.bb(PieceType::WK), b.king_square(Color::White).0 as u64);
    lemma_only_square(b.bb(PieceType::BK), b.king_square(Color::Black).0 as u64);
}

/// A move that the position accepts keeps the piece boards pairwise disjoint.
#[verifier::rlimit(50)]
pub proof fn lemma_apply_keeps_disjoint(b: Board, m: BitMove)
    requires
        b.wf(),
        b.accepts(m),
    ensures
        b.apply(m).disjoint(),
        b.apply(m).pieces.len() == 12,
{
    broadcast use group_holds;
    let a = b.apply(m);
    let t0 = m.spec_target().0 as u64;
    lemma_occupied(b, t0);
    lemma_occupied(b, Square::F1 as u64);
    lemma_occupied(b, Square::D1 as u64);
    lemma_occupied(b, Square::F8 as u64);
    lemma_occupied(b, Square::D8 as u64);
    let d = b.placed(m);
    assert forall|p: PieceType, q: PieceType, t: u64|
        p.is_piece() && q.is_piece() && p != q && t < 64 implies !(#[trigger] a.holds(p, t)
            && #[trigger] a.holds(q, t)) by {
        assert(a.holds(p, t) == d.holds(p, t));
        assert(a.holds(q, t) == d.holds(q, t));
        assert(!(b.holds(p, t) && b.holds(q, t)));
    }
}

/// A move that the position accepts and that captures no king leaves each side with
/// exactly one king.
pub proof fn lemma_apply_keeps_kings(b: Board, m: BitMove)
    requires
        b.wf(),
        b.accepts(m),
        !is_king(m.spec_capture()),
    ensures
        b.apply(m).one_king_each(),
{
    lemma_apply_keeps_king_of(b, m, Color::White);
    lemma_apply_keeps_king_of(b, m, Color::Black);
}

/// A move that the position accepts and that does not capture the king of `side` leaves
/// `side` with exactly one king.
#[verifier::rlimit(50)]
pub proof fn lemma_apply_keeps_king_of(b: Board, m: BitMove, side: Color)
    requires
        b.wf(),
        b.accepts(m),
        m.spec_capture() != PieceType::spec_of(side, 5),
    ensures
        b.apply(m).one_king(side),
        b.apply(m).bb(PieceType::spec_of(side, 5)) != 0,
{
    broadcast use group_holds;
    let a = b.apply(m);
    let d = b.placed(m);
    let king = PieceType::spec_of(side, 5);
    let k: u64 = if m.spec_piece() == king {
        m.spec_target().0 as u64
    } else {
        b.king_square(side).0 as u64
    };
    assert(b.one_king(side));
    assert forall|t: u64| t < 64 implies #[trigger] bit_at(a.bb(king), t) == (t == k) by {
        assert(a.holds(king, t) == d.holds(king, t));
        assert(b.holds(king, t) == (t == b.king_square(side).0));
    }
    lemma_only_square(a.bb(king), k);
    assert forall|t: u64| t < 64 implies #[trigger] a.holds(king, t) == (t == a.king_square(
        side,
    ).0) by {
        assert(bit_at(a.bb(king), t) == (t == k));
    }
}

/// A move that the position accepts leaves the en-passant square, when it sets one, empty
/// and behind the pawn that has just made its double push.
#[verifier::rlimit(50)]
pub proof fn lemma_apply_keeps_en_passant(b: Board, m: BitMove)
    requires
        b.wf(),
        b.accepts(m),
    ensures
        b.apply(m).en_passant_ok(),
{
    broadcast use group_holds;
    let a = b.apply(m);
    let d = b.placed(m);
    let s = m.spec_source().0 as u64;
    let t0 = m.spec_target().0 as u64;
    if m.spec_flag() == MoveFlag::WDoublePawn {
        let e = (t0 + 8) as u64;
        lemma_occupied(b, e);
        lemma_occupied(a, e);
        assert(a.holds(PieceType::WP, t0) == d.holds(PieceType::WP, t0));
        assert forall|p: PieceType| p.is_piece() implies !#[trigger] a.holds(p, e) by {
            assert(a.holds(p, e) == d.holds(p, e));
            assert(!b.holds(p, e));
        }
    } else if m.spec_flag() == MoveFlag::BDoublePawn {
        let e = (t0 - 8) as u64;
        lemma_occupied(b, e);
        lemma_occupied(a, e);
        assert(a.holds(PieceType::BP, t0) == d.holds(PieceType::BP, t0));
        assert forall|p: PieceType| p.is_piece() implies !#[trigger] a.holds(p, e) by {
            assert(a.holds(p, e) == d.holds(p, e));
            assert(!b.holds(p, e));
        }
    }
}

/// A move that the position accepts leaves every castling right that survives it with its
/// king and its rook at home.
#[verifier::rlimit(50)]
pub proof fn lemma_apply_keeps_rights(b: Board, m: BitMove)
    requires
        b.wf(),
        b.accepts(m),
    ensures
        b.apply(m).rights_ok(),
{
    broadcast use group_holds;
    let a = b.apply(m);
    let d = b.placed(m);
    lemma_spec_update(b.rights, m.spec_source(), m.spec_target());
    assert(a.holds(PieceType::WK, Square::E1 as u64) == d.holds(PieceType::WK, Square::E1 as u64));
    assert(a.holds(PieceType::WR, Square::H1 as u64) == d.holds(PieceType::WR, Square::H1 as u64));
    assert(a.holds(PieceType::WR, Square::A1 as u64) == d.holds(PieceType::WR, Square::A1 as u64));
    assert(a.holds(PieceType::BK, Square::E8 as u64) == d.holds(PieceType::BK, Square::E8 as u64));
    assert(a.holds(PieceType::BR, Square::H8 as u64) == d.holds(PieceType::BR, Square::H8 as u64));
    assert(a.holds(PieceType::BR, Square::A8 as u64) == d.holds(PieceType::BR, Square::A8 as u64));
}

/// Making a move that the position accepts and that captures no king gives a position that
/// is again well formed: the piece boards are disjoint, each side has one king, the
/// en-passant square and the castling rights fit the board.
pub proof fn lemma_apply_keeps_wf(b: Board, m: BitMove)
    requires
        b.wf(),
        b.accepts(m),
        !is_king(m.spec_capture()),
    ensures
        b.apply(m).wf(),
{
    lemma_apply_keeps_disjoint(b, m);
    lemma_apply_keeps_kings(b, m);
    lemma_apply_keeps_en_passant(b, m);
    lemma_apply_keeps_rights(b, m);
}

/// A move that the position accepts can be made: it meets what `make_move` needs.
pub proof fn lemma_accepted_is_permitted(b: Board, m: BitMove)
    requires
        b.wf(),
        b.accepts(m),
    ensures
        b.permits(m),
        b.apply(m).permits_undo(m),
{
    lemma_apply_keeps_king_of(b, m, b.side);
    lemma_apply_keeps_disjoint(b, m);
}

/// The position `b` with the en-passant square that taking back the move `m` leaves: the
/// square of `b` when `m` is an en-passant capture, and none otherwise.
pub open spec fn taken_back(b: Board, m: BitMove) -> Board {
    Board {
        en_passant: match m.spec_flag() {
            MoveFlag::WEnPassant | MoveFlag::BEnPassant => b.en_passant,
            _ => Square(Square::NONE),
        },
        ..b
    }
}

/// Whether piece `p` stands on `t` after the move `m` by `side`, given whether it stood
/// there before.
pub open spec fn placed_bit(was: bool, m: BitMove, side: Color, p: PieceType, t: u64) -> bool {
    let s = m.spec_source().0 as u64;
    let t0 = m.spec_target().0 as u64;
    let piece = m.spec_piece();
    let capture = m.spec_capture();
    let flag = m.spec_flag();
    let moved = (was && !(p == piece && t == s)) || (p == piece && t == t0);
    let taken = if capture != PieceType::Null {
        moved && !(p == capture && t == t0)
    } else {
        moved
    };
    match flag {
        MoveFlag::Null | MoveFlag::WDoublePawn | MoveFlag::BDoublePawn => taken,
        MoveFlag::WEnPassant => taken && !(p == PieceType::BP && t == t0 + 8),
        MoveFlag::BEnPassant => taken && !(p == PieceType::WP && t == t0 - 8),
        MoveFlag::WKCastle => (taken && !(p == PieceType::WR && t == Square::H1)) || (p
            == PieceType::WR && t == Square::F1),
        MoveFlag::WQCastle => (taken && !(p == PieceType::WR && t == Square::A1)) || (p
            == PieceType::WR && t == Square::D1),
        MoveFlag::BKCastle => (taken && !(p == PieceType::BR && t == Square::H8)) || (p
            == PieceType::BR && t == Square::F8),
        MoveFlag::BQCastle => (taken && !(p == PieceType::BR && t == Square::A8)) || (p
            == PieceType::BR && t == Square::D8),
        _ => (taken && !(p == piece && t == t0)) || (p == crate::board::promoted_piece(side, flag)
            && t == t0),
    }
}

/// Whether piece `p` stands on `t` after the move `m` by `mover` is taken back, given
/// whether it stood there before the taking back.
pub open spec fn unplaced_bit(was: bool, m: BitMove, mover: Color, p: PieceType, t: u64) -> bool {
    let s = m.spec_source().0 as u64;
    let t0 = m.spec_target().0 as u64;
    let piece = m.spec_piece();
    let capture = m.spec_capture();
    let flag = m.spec_flag();
    let moved = (was && !(p == piece && t == t0)) || (p == piece && t == s);
    let restored = if capture != PieceType::Null {
        moved || (p == capture && t == t0)
    } else {
        moved
    };
    match flag {
        MoveFlag::Null | MoveFlag::WDoublePawn | MoveFlag::BDoublePawn => restored,
        MoveFlag::WEnPassant => restored || (p == PieceType::BP && t == t0 + 8),
        MoveFlag::BEnPassant => restored || (p == PieceType::WP && t == t0 - 8),
        MoveFlag::WKCastle => (restored || (p == PieceType::WR && t == Square::H1)) && !(p
            == PieceType::WR && t == Square::F1),
        MoveFlag::WQCastle => (restored || (p == PieceType::WR && t == Square::A1)) && !(p
            == PieceType::WR && t == Square::D1),
        MoveFlag::BKCastle => (restored || (p == PieceType::BR && t == Square::H8)) && !(p
            == PieceType::BR && t == Square::F8),
        MoveFlag::BQCastle => (restored || (p == PieceType::BR && t == Square::A8)) && !(p
            == PieceType::BR && t == Square::D8),
        _ => restored && !(p == crate::board::promoted_piece(mover, flag) && t == t0),
    }
}

/// The squares that a move's flag speaks of are on the board.
pub open spec fn flag_squares_ok(m: BitMove) -> bool {
    let target = m.spec_target();
    let flag = m.spec_flag();
    &&& m.spec_piece().is_piece()
    &&& flag == MoveFlag::WEnPassant ==> target.0 < 56
    &&& flag == MoveFlag::BEnPassant ==> target.0 >= 8
}

/// Where the pieces stand after a move, square by square.
#[verifier::rlimit(50)]
pub proof fn lemma_placed_holds(b: Board, m: BitMove, p: PieceType, t: u64)
    requires
        b.pieces.len() == 12,
        flag_squares_ok(m),
        p.is_piece(),
        t < 64,
    ensures
        b.placed(m).pieces.len() == 12,
        b.placed(m).holds(p, t) == placed_bit(b.holds(p, t), m, b.side, p, t),
        b.apply(m).holds(p, t) == placed_bit(b.holds(p, t), m, b.side, p, t),
{
    broadcast use group_holds;
    assert(b.apply(m).holds(p, t) == b.placed(m).holds(p, t));
}

/// Where the pieces stand after a move is taken back, square by square.
#[verifier::rlimit(50)]
pub proof fn lemma_unplaced_holds(
    a: Board,
    m: BitMove,
    rights: crate::castling_rights::CastlingRights,
    p: PieceType,
    t: u64,
)
    requires
        a.pieces.len() == 12,
        flag_squares_ok(m),
        p.is_piece(),
        t < 64,
    ensures
        a.unplaced(m).pieces.len() == 12,
        a.unplaced(m).holds(p, t) == unplaced_bit(
            a.holds(p, t),
            m,
            a.side.spec_opposite(),
            p,
            t,
        ),
        a.undo(m, rights).holds(p, t) == unplaced_bit(
            a.holds(p, t),
            m,
            a.side.spec_opposite(),
            p,
            t,
        ),
{
    broadcast use group_holds;
    assert(a.undo(m, rights).holds(p, t) == a.unplaced(m).holds(p, t));
}

/// Making a move that the position accepts and taking it back with the rights of before
/// gives the position of before, but for the en-passant square: that one returns only when
/// the move was an en-passant capture.
#[verifier::rlimit(50)]
pub proof fn lemma_undo_apply(b: Board, m: BitMove)
    requires
        b.wf(),
        b.accepts(m),
    ensures
        b.apply(m).undo(m, b.rights) == taken_back(b, m),
{
    let a = b.apply(m);
    let u = a.undo(m, b.rights);
    let t0 = m.spec_target().0 as u64;
    lemma_occupied(b, t0);
    lemma_occupied(b, Square::F1 as u64);
    lemma_occupied(b, Square::D1 as u64);
    lemma_occupied(b, Square::F8 as u64);
    lemma_occupied(b, Square::D8 as u64);
    assert forall|i: int| 0 <= i < 12 implies u.pieces[i] == b.pieces[i] by {
        let p = PieceType::spec_from_index(i);
        assert(p.is_piece() && p.spec_index() == i);
        assert forall|t: u64| t < 64 implies bit_at(u.pieces[i], t) == bit_at(b.pieces[i], t) by {
            lemma_placed_holds(b, m, p, t);
            lemma_unplaced_holds(a, m, b.rights, p, t);
            assert(u.holds(p, t) == unplaced_bit(
                placed_bit(b.holds(p, t), m, b.side, p, t),
                m,
                b.side,
                p,
                t,
            ));
            assert(m.spec_capture().is_piece() ==> !(b.holds(p, t) && b.holds(
                m.spec_capture(),
                t,
            )) || p == m.spec_capture());
            assert(!(b.holds(p, t) && b.holds(m.spec_piece(), t)) || p == m.spec_piece());
            assert(u.holds(p, t) == b.holds(p, t));
        }
        lemma_bits_equal(u.pieces[i], b.pieces[i]);
    }
    assert(u.pieces =~= b.pieces);
}

/// Losing the en-passant square leaves a well-formed position well formed.
pub proof fn lemma_taken_back_wf(b: Board, m: BitMove)
    requires
        b.wf(),
    ensures
        taken_back(b, m).wf(),
{
    let k = taken_back(b, m);
    assert(k.disjoint()) by {
        assert forall|p: PieceType, q: PieceType, t: u64|
            p.is_piece() && q.is_piece() && p != q && t < 64 implies !(#[trigger] k.holds(p, t)
                && #[trigger] k.holds(q, t)) by {
            assert(!(b.holds(p, t) && b.holds(q, t)));
        }
    }
    assert(k.one_king(Color::White)) by {
        assert(b.one_king(Color::White));
        assert(k.king_square(Color::White) == b.king_square(Color::White));
        assert forall|t: u64| t < 64 implies #[trigger] k.holds(PieceType::WK, t) == (t
            == k.king_square(Color::White).0) by {
            assert(b.holds(PieceType::WK, t) == (t == b.king_square(Color::White).0));
        }
    }
    assert(k.one_king(Color::Black)) by {
        assert(b.one_king(Color::Black));
        assert(k.king_square(Color::Black) == b.king_square(Color::Black));
        assert forall|t: u64| t < 64 implies #[trigger] k.holds(PieceType::BK, t) == (t
            == k.king_square(Color::Black).0) by {
            assert(b.holds(PieceType::BK, t) == (t == b.king_square(Color::Black).0));
        }
    }
}

} // verus!
