use vstd::prelude::*;
use crate::bit_move::{BitMove, MoveFlag};
use crate::bitboard::Bitboard;
use crate::bits::{bit_at, drop_lowest, group_bits, lemma_bit_logic, lemma_bit_test, lemma_disjoint_bits, lemma_drop_lowest, lemma_lowest, lowest};
use crate::board::{pieces_of, Board};
use crate::color::Color;
use crate::invariants::{lemma_fitting_is_accepted, lemma_occupied};
use crate::move_gen::{en_passant_row, home_row, double_push_row, promotion_row, promotions, Emit};
use crate::move_init::{pawn_capture_mask, pawn_quiet_mask};
use crate::piece::PieceType;
use crate::square::Square;

verus! {

/// A value is in a concatenation when it is in one of the two parts.
pub proof fn lemma_concat_contains<A>(a: Seq<A>, b: Seq<A>, x: A)
    ensures
        (a + b).contains(x) == (a.contains(x) || b.contains(x)),
{
    if (a + b).contains(x) {
        let i = choose|i: int| 0 <= i < (a + b).len() && (a + b)[i] == x;
        if i < a.len() {
            assert(a[i] == x);
        } else {
            assert(b[i - a.len()] == x);
        }
    }
    if a.contains(x) {
        let i = choose|i: int| 0 <= i < a.len() && a[i] == x;
        assert((a + b)[i] == x);
    }
    if b.contains(x) {
        let i = choose|i: int| 0 <= i < b.len() && b[i] == x;
        assert((a + b)[a.len() + i] == x);
    }
}

/// A move written down for a set of targets was written down for one of them.
pub proof fn lemma_emitted_over_member(
    b: Board,
    emit: Emit,
    piece: PieceType,
    source: Square,
    targets: u64,
    m: BitMove,
)
    requires
        b.emitted_over(emit, piece, source, targets).contains(m),
    ensures
        exists|t: u64|
            t < 64 && bit_at(targets, t) && #[trigger] b.emitted(
                emit,
                piece,
                source,
                Square(t as u8),
            ).contains(m),
    decreases targets,
{
    if targets != 0 {
        broadcast use group_bits;
        lemma_lowest(targets);
        lemma_drop_lowest(targets);
        let first = b.emitted(emit, piece, source, Square(lowest(targets) as u8));
        let rest = b.emitted_over(emit, piece, source, drop_lowest(targets));
        lemma_concat_contains(first, rest, m);
        if first.contains(m) {
            assert(b.emitted(emit, piece, source, Square(lowest(targets) as u8)).contains(m));
        } else {
            lemma_emitted_over_member(b, emit, piece, source, drop_lowest(targets), m);
            let t = choose|t: u64|
                t < 64 && bit_at(drop_lowest(targets), t) && #[trigger] b.emitted(
                    emit,
                    piece,
                    source,
                    Square(t as u8),
                ).contains(m);
            assert(bit_at(targets, t));
        }
    }
}

/// A move written down for a set of sources was written down for one of them.
pub proof fn lemma_moves_of_member(b: Board, role: int, sources: u64, m: BitMove)
    requires
        b.moves_of(role, sources).contains(m),
    ensures
        exists|s: u64|
            s < 64 && bit_at(sources, s) && #[trigger] b.moves_from(role, Square(s as u8)).contains(
                m,
            ),
    decreases sources,
{
    if sources != 0 {
        broadcast use group_bits;
        lemma_lowest(sources);
        lemma_drop_lowest(sources);
        let first = b.moves_from(role, Square(lowest(sources) as u8));
        let rest = b.moves_of(role, drop_lowest(sources));
        lemma_concat_contains(first, rest, m);
        if first.contains(m) {
            assert(b.moves_from(role, Square(lowest(sources) as u8)).contains(m));
        } else {
            lemma_moves_of_member(b, role, drop_lowest(sources), m);
            let s = choose|s: u64|
                s < 64 && bit_at(drop_lowest(sources), s) && #[trigger] b.moves_from(
                    role,
                    Square(s as u8),
                ).contains(m);
            assert(bit_at(sources, s));
        }
    }
}

/// On a square that a piece of `color` occupies, the first piece of `color` found there is
/// a piece of `color` that stands there.
pub proof fn lemma_target_piece(b: Board, color: Color, t: u64)
    requires
        b.pieces.len() == 12,
        t < 64,
        bit_at(b.occupied_by(color), t),
    ensures
        ({
            let r = b.target_piece(pieces_of(color), Square(t as u8));
            r.is_piece() && r.spec_color() == color && b.holds(r, t)
        }),
{
    lemma_occupied(b, t);
    let e = pieces_of(color);
    assert(e[0] == PieceType::spec_of(color, 0));
    assert(e[1] == PieceType::spec_of(color, 1));
    assert(e[2] == PieceType::spec_of(color, 2));
    assert(e[3] == PieceType::spec_of(color, 3));
    assert(e[4] == PieceType::spec_of(color, 4));
    assert(e[5] == PieceType::spec_of(color, 5));
    let p = choose|p: PieceType| p.is_piece() && p.spec_color() == color && #[trigger] b.holds(p, t);
    assert(p == e[0] || p == e[1] || p == e[2] || p == e[3] || p == e[4] || p == e[5]);
}

/// A square that holds a piece is occupied by that piece's side.
pub proof fn lemma_holder_occupies(b: Board, p: PieceType, t: u64)
    requires
        b.pieces.len() == 12,
        t < 64,
        p.is_piece(),
        b.holds(p, t),
    ensures
        bit_at(b.occupied_by(p.spec_color()), t),
        b.occupied(t),
{
    lemma_occupied(b, t);
}

/// In a well-formed position no square is occupied by both sides.
pub proof fn lemma_sides_apart(b: Board, t: u64)
    requires
        b.wf(),
        t < 64,
    ensures
        !(bit_at(b.white(), t) && bit_at(b.black(), t)),
        b.occupied(t) == (bit_at(b.white(), t) || bit_at(b.black(), t)),
{
    broadcast use group_bits;
    lemma_occupied(b, t);
    if bit_at(b.white(), t) && bit_at(b.black(), t) {
        let p = choose|p: PieceType|
            p.is_piece() && p.spec_color() == Color::White && #[trigger] b.holds(p, t);
        let q = choose|q: PieceType|
            q.is_piece() && q.spec_color() == Color::Black && #[trigger] b.holds(q, t);
        assert(!(b.holds(p, t) && b.holds(q, t)));
    }
}

/// A move among the four promotions is one of them.
pub proof fn lemma_promotions_member(
    source: Square,
    target: Square,
    pawn: PieceType,
    capture: PieceType,
    m: BitMove,
)
    requires
        promotions(source, target, pawn, capture).contains(m),
    ensures
        m == BitMove::spec_encode(source, target, pawn, capture, MoveFlag::PromoN) || m
            == BitMove::spec_encode(source, target, pawn, capture, MoveFlag::PromoB) || m
            == BitMove::spec_encode(source, target, pawn, capture, MoveFlag::PromoR) || m
            == BitMove::spec_encode(source, target, pawn, capture, MoveFlag::PromoQ),
{
    let ps = promotions(source, target, pawn, capture);
    let i = choose|i: int| 0 <= i < ps.len() && ps[i] == m;
    assert(ps[i] == m);
}

/// A plain move that is generated is accepted.
#[verifier::rlimit(50)]
pub proof fn lemma_plain_accepted(b: Board, role: int, source: Square, t: u64, m: BitMove)
    requires
        b.wf(),
        1 <= role <= 5,
        source.is_some(),
        t < 64,
        b.holds(PieceType::spec_of(b.side, role), source.0 as u64),
        bit_at(b.attack_set(role, source) & !b.occupied_by(b.side), t),
        b.emitted(Emit::Plain, PieceType::spec_of(b.side, role), source, Square(t as u8)).contains(
            m,
        ),
    ensures
        b.accepts(m),
        b.aimed(m),
{
    let piece = PieceType::spec_of(b.side, role);
    let target = Square(t as u8);
    let enemy = b.side.spec_opposite();
    let capture = b.captured_on(target);
    assert(m == BitMove::spec_encode(source, target, piece, capture, MoveFlag::Null));
    lemma_bit_logic(b.attack_set(role, source), !b.occupied_by(b.side), t);
    lemma_bit_logic(b.occupied_by(b.side), 0, t);
    lemma_holder_occupies(b, piece, source.0 as u64);
    lemma_sides_apart(b, t);
    lemma_bit_test(b.occupied_by(enemy), t);
    if bit_at(b.occupied_by(enemy), t) {
        lemma_target_piece(b, enemy, t);
    }
    assert(b.fits(source, target, piece, capture, MoveFlag::Null));
    lemma_fitting_is_accepted(b, source, target, piece, capture, MoveFlag::Null);
    assert(b.strikes(role, source.0 as u64, t));
}

/// A pawn's capture that is generated is accepted.
#[verifier::rlimit(50)]
pub proof fn lemma_pawn_capture_accepted(b: Board, source: Square, t: u64, m: BitMove)
    requires
        b.wf(),
        source.is_some(),
        t < 64,
        b.holds(PieceType::spec_of(b.side, 0), source.0 as u64),
        bit_at(
            pawn_capture_mask(b.side, source.0 as int) & b.occupied_by(b.side.spec_opposite()),
            t,
        ),
        b.emitted(
            Emit::PawnCapture,
            PieceType::spec_of(b.side, 0),
            source,
            Square(t as u8),
        ).contains(m),
    ensures
        b.accepts(m),
        b.aimed(m),
{
    let piece = PieceType::spec_of(b.side, 0);
    let target = Square(t as u8);
    let enemy = b.side.spec_opposite();
    let capture = b.target_piece(pieces_of(enemy), target);
    lemma_bit_logic(pawn_capture_mask(b.side, source.0 as int), b.occupied_by(enemy), t);
    lemma_target_piece(b, enemy, t);
    lemma_holder_occupies(b, piece, source.0 as u64);
    lemma_sides_apart(b, t);
    lemma_sides_apart(b, source.0 as u64);
    assert(source.0 != t);
    assert(b.strikes(0, source.0 as u64, t));
    if source.rank_index() == promotion_row(b.side) {
        lemma_promotions_member(source, target, piece, capture, m);
        assert(b.fits(source, target, piece, capture, MoveFlag::PromoN));
        assert(b.fits(source, target, piece, capture, MoveFlag::PromoB));
        assert(b.fits(source, target, piece, capture, MoveFlag::PromoR));
        assert(b.fits(source, target, piece, capture, MoveFlag::PromoQ));
        lemma_fitting_is_accepted(b, source, target, piece, capture, MoveFlag::PromoN);
        lemma_fitting_is_accepted(b, source, target, piece, capture, MoveFlag::PromoB);
        lemma_fitting_is_accepted(b, source, target, piece, capture, MoveFlag::PromoR);
        lemma_fitting_is_accepted(b, source, target, piece, capture, MoveFlag::PromoQ);
    } else {
        assert(b.fits(source, target, piece, capture, MoveFlag::Null));
        lemma_fitting_is_accepted(b, source, target, piece, capture, MoveFlag::Null);
    }
}

/// A double push goes two rows ahead, and the square it jumps over is in the pawn's quiet
/// mask too.
proof fn lemma_double_push_geometry(side: Color, source: Square, t: u64)
    requires
        source.is_some(),
        t < 64,
        bit_at(pawn_quiet_mask(side, source.0 as int), t),
        source.rank_index() == home_row(side),
        t / 8 == double_push_row(side),
    ensures
        side == Color::White ==> t == source.0 - 16 && bit_at(
            pawn_quiet_mask(side, source.0 as int),
            (source.0 - 8) as u64,
        ),
        side == Color::Black ==> t == source.0 + 16 && bit_at(
            pawn_quiet_mask(side, source.0 as int),
            (source.0 + 8) as u64,
        ),
{
    broadcast use group_bits;
}

/// A pawn's push that is generated is accepted.
#[verifier::rlimit(50)]
pub proof fn lemma_pawn_quiet_accepted(b: Board, source: Square, t: u64, m: BitMove)
    requires
        b.wf(),
        source.is_some(),
        t < 64,
        b.holds(PieceType::spec_of(b.side, 0), source.0 as u64),
        bit_at(pawn_quiet_mask(b.side, source.0 as int) & !b.all(), t),
        b.emitted(
            Emit::PawnQuiet,
            PieceType::spec_of(b.side, 0),
            source,
            Square(t as u8),
        ).contains(m),
    ensures
        b.accepts(m),
        b.aimed(m),
{
    let side = b.side;
    let piece = PieceType::spec_of(side, 0);
    let target = Square(t as u8);
    let s = source.0 as u64;
    let mask = pawn_quiet_mask(side, source.0 as int);
    let none = PieceType::Null;
    lemma_bit_logic(mask, !b.all(), t);
    lemma_bit_logic(b.all(), 0, t);
    assert(bit_at(mask, t) && !b.occupied(t));
    lemma_holder_occupies(b, piece, s);
    assert(s != t);
    if source.rank_index() == home_row(side) && target.rank_index() == double_push_row(side) {
        lemma_disjoint_bits(mask, b.all());
        lemma_double_push_geometry(side, source, t);
        match side {
            Color::White => {
                assert(!b.occupied((s - 8) as u64));
                assert(b.fits(source, target, piece, none, MoveFlag::WDoublePawn));
                lemma_fitting_is_accepted(b, source, target, piece, none, MoveFlag::WDoublePawn);
            },
            Color::Black => {
                assert(!b.occupied((s + 8) as u64));
                assert(b.fits(source, target, piece, none, MoveFlag::BDoublePawn));
                lemma_fitting_is_accepted(b, source, target, piece, none, MoveFlag::BDoublePawn);
            },
        }
    } else if source.rank_index() == promotion_row(side) {
        lemma_promotions_member(source, target, piece, none, m);
        assert(b.fits(source, target, piece, none, MoveFlag::PromoN));
        assert(b.fits(source, target, piece, none, MoveFlag::PromoB));
        assert(b.fits(source, target, piece, none, MoveFlag::PromoR));
        assert(b.fits(source, target, piece, none, MoveFlag::PromoQ));
        lemma_fitting_is_accepted(b, source, target, piece, none, MoveFlag::PromoN);
        lemma_fitting_is_accepted(b, source, target, piece, none, MoveFlag::PromoB);
        lemma_fitting_is_accepted(b, source, target, piece, none, MoveFlag::PromoR);
        lemma_fitting_is_accepted(b, source, target, piece, none, MoveFlag::PromoQ);
    } else {
        assert(b.fits(source, target, piece, none, MoveFlag::Null));
        lemma_fitting_is_accepted(b, source, target, piece, none, MoveFlag::Null);
    }
}

/// An en-passant capture that is generated is accepted.
pub proof fn lemma_en_passant_accepted(b: Board, source: Square, t: u64, m: BitMove)
    requires
        b.wf(),
        source.is_some(),
        t < 64,
        b.en_passant.0 != Square::NONE,
        b.holds(PieceType::spec_of(b.side, 0), source.0 as u64),
        b.emitted(
            Emit::EnPassant,
            PieceType::spec_of(b.side, 0),
            source,
            Square(t as u8),
        ).contains(m),
    ensures
        b.accepts(m),
        b.aimed(m),
{
    let side = b.side;
    let piece = PieceType::spec_of(side, 0);
    let target = Square(t as u8);
    let none = PieceType::Null;
    lemma_holder_occupies(b, piece, source.0 as u64);
    assert(target == b.en_passant);
    match side {
        Color::White => {
            assert(b.fits(source, target, piece, none, MoveFlag::WEnPassant));
            lemma_fitting_is_accepted(b, source, target, piece, none, MoveFlag::WEnPassant);
        },
        Color::Black => {
            assert(b.fits(source, target, piece, none, MoveFlag::BEnPassant));
            lemma_fitting_is_accepted(b, source, target, piece, none, MoveFlag::BEnPassant);
        },
    }
}

proof fn lemma_castling_paths()
    by (bit_vector)
    ensures
        (0x6000_0000_0000_0000u64 >> 61) & 1 == 1,
        (0x6000_0000_0000_0000u64 >> 62) & 1 == 1,
        (0x0E00_0000_0000_0000u64 >> 58) & 1 == 1,
        (0x0E00_0000_0000_0000u64 >> 59) & 1 == 1,
        (0x60u64 >> 5) & 1 == 1,
        (0x60u64 >> 6) & 1 == 1,
        (0x0Eu64 >> 2) & 1 == 1,
        (0x0Eu64 >> 3) & 1 == 1,
{
}

/// A castling move that is generated is accepted.
#[verifier::rlimit(50)]
pub proof fn lemma_castling_accepted(b: Board, king_side: bool, m: BitMove)
    requires
        b.wf(),
        b.castling_moves(king_side).contains(m),
    ensures
        b.accepts(m),
        b.aimed(m),
{
    let side = b.side;
    let king = PieceType::spec_of(side, 5);
    let source = b.king_square(side);
    let target = b.castling_target(king_side);
    let flag = b.castling_flag(king_side);
    let none = PieceType::Null;
    assert(b.may_castle(king_side));
    assert(m == BitMove::spec_encode(source, target, king, none, flag));
    lemma_castling_paths();
    assert(b.one_king(side));
    match side {
        Color::White => {
            assert(b.holds(king, Square::E1 as u64));
            assert(source.0 == Square::E1);
            if king_side {
                lemma_disjoint_bits(b.all(), Bitboard::W_KING_SIDE_MASK);
                assert(bit_at(Bitboard::W_KING_SIDE_MASK, Square::F1 as u64));
                assert(bit_at(Bitboard::W_KING_SIDE_MASK, Square::G1 as u64));
            } else {
                lemma_disjoint_bits(b.all(), Bitboard::W_QUEEN_SIDE_MASK);
                assert(bit_at(Bitboard::W_QUEEN_SIDE_MASK, Square::D1 as u64));
                assert(bit_at(Bitboard::W_QUEEN_SIDE_MASK, Square::C1 as u64));
            }
        },
        Color::Black => {
            assert(b.holds(king, Square::E8 as u64));
            assert(source.0 == Square::E8);
            if king_side {
                lemma_disjoint_bits(b.all(), Bitboard::B_KING_SIDE_MASK);
                assert(bit_at(Bitboard::B_KING_SIDE_MASK, Square::F8 as u64));
                assert(bit_at(Bitboard::B_KING_SIDE_MASK, Square::G8 as u64));
            } else {
                lemma_disjoint_bits(b.all(), Bitboard::B_QUEEN_SIDE_MASK);
                assert(bit_at(Bitboard::B_QUEEN_SIDE_MASK, Square::D8 as u64));
                assert(bit_at(Bitboard::B_QUEEN_SIDE_MASK, Square::C8 as u64));
            }
        },
    }
    assert(b.fits(source, target, king, none, flag));
    lemma_fitting_is_accepted(b, source, target, king, none, flag);
}

/// A move that is generated for the piece of role `role` on `source` is accepted.
#[verifier::rlimit(50)]
pub proof fn lemma_moves_from_accepted(b: Board, role: int, source: Square, m: BitMove)
    requires
        b.wf(),
        0 <= role <= 5,
        source.is_some(),
        b.holds(PieceType::spec_of(b.side, role), source.0 as u64),
        b.moves_from(role, source).contains(m),
    ensures
        b.accepts(m),
        b.aimed(m),
{
    let side = b.side;
    let piece = PieceType::spec_of(side, role);
    if role == 0 {
        let captures = pawn_capture_mask(side, source.0 as int);
        let capture_targets = captures & b.occupied_by(side.spec_opposite());
        let quiet_targets = pawn_quiet_mask(side, source.0 as int) & !b.all();
        let first = b.emitted_over(Emit::PawnCapture, piece, source, capture_targets);
        let second = b.emitted_over(Emit::PawnQuiet, piece, source, quiet_targets);
        let third = if b.en_passant.0 != Square::NONE && source.rank_index() == en_passant_row(
            side,
        ) {
            b.emitted_over(Emit::EnPassant, piece, source, captures)
        } else {
            Seq::empty()
        };
        lemma_concat_contains(first + second, third, m);
        lemma_concat_contains(first, second, m);
        if first.contains(m) {
            lemma_emitted_over_member(b, Emit::PawnCapture, piece, source, capture_targets, m);
            let t = choose|t: u64|
                t < 64 && bit_at(capture_targets, t) && #[trigger] b.emitted(
                    Emit::PawnCapture,
                    piece,
                    source,
                    Square(t as u8),
                ).contains(m);
            lemma_pawn_capture_accepted(b, source, t, m);
        } else if second.contains(m) {
            lemma_emitted_over_member(b, Emit::PawnQuiet, piece, source, quiet_targets, m);
            let t = choose|t: u64|
                t < 64 && bit_at(quiet_targets, t) && #[trigger] b.emitted(
                    Emit::PawnQuiet,
                    piece,
                    source,
                    Square(t as u8),
                ).contains(m);
            lemma_pawn_quiet_accepted(b, source, t, m);
        } else {
            assert(third.contains(m));
            lemma_emitted_over_member(b, Emit::EnPassant, piece, source, captures, m);
            let t = choose|t: u64|
                t < 64 && bit_at(captures, t) && #[trigger] b.emitted(
                    Emit::EnPassant,
                    piece,
                    source,
                    Square(t as u8),
                ).contains(m);
            lemma_en_passant_accepted(b, source, t, m);
        }
    } else {
        let targets = b.attack_set(role, source) & !b.occupied_by(side);
        lemma_emitted_over_member(b, Emit::Plain, piece, source, targets, m);
        let t = choose|t: u64|
            t < 64 && bit_at(targets, t) && #[trigger] b.emitted(
                Emit::Plain,
                piece,
                source,
                Square(t as u8),
            ).contains(m);
        lemma_plain_accepted(b, role, source, t, m);
    }
}

/// A move that is generated for the pieces of role `role` is accepted.
pub proof fn lemma_moves_of_accepted(b: Board, role: int, m: BitMove)
    requires
        b.wf(),
        0 <= role <= 5,
        b.moves_of(role, b.bb(PieceType::spec_of(b.side, role))).contains(m),
    ensures
        b.accepts(m),
        b.aimed(m),
{
    let sources = b.bb(PieceType::spec_of(b.side, role));
    lemma_moves_of_member(b, role, sources, m);
    let s = choose|s: u64|
        s < 64 && bit_at(sources, s) && #[trigger] b.moves_from(role, Square(s as u8)).contains(m);
    lemma_moves_from_accepted(b, role, Square(s as u8), m);
}

/// Every pseudo-legal move of a well-formed position is accepted by it, and when it captures,
/// a piece of the side to move strikes its target.
#[verifier::rlimit(50)]
pub proof fn lemma_moves_accepted(b: Board, m: BitMove)
    requires
        b.wf(),
        b.moves().contains(m),
    ensures
        b.accepts(m),
        b.aimed(m),
{
    let side = b.side;
    let pawns = b.moves_of(0, b.bb(PieceType::spec_of(side, 0)));
    let knights = b.moves_of(1, b.bb(PieceType::spec_of(side, 1)));
    let king = b.moves_from(5, b.king_square(side));
    let short = b.castling_moves(true);
    let long = b.castling_moves(false);
    let bishops = b.moves_of(2, b.bb(PieceType::spec_of(side, 2)));
    let rooks = b.moves_of(3, b.bb(PieceType::spec_of(side, 3)));
    let queens = b.moves_of(4, b.bb(PieceType::spec_of(side, 4)));
    lemma_concat_contains(pawns + knights + king + short + long + bishops + rooks, queens, m);
    lemma_concat_contains(pawns + knights + king + short + long + bishops, rooks, m);
    lemma_concat_contains(pawns + knights + king + short + long, bishops, m);
    lemma_concat_contains(pawns + knights + king + short, long, m);
    lemma_concat_contains(pawns + knights + king, short, m);
    lemma_concat_contains(pawns + knights, king, m);
    lemma_concat_contains(pawns, knights, m);
    if pawns.contains(m) {
        lemma_moves_of_accepted(b, 0, m);
    } else if knights.contains(m) {
        lemma_moves_of_accepted(b, 1, m);
    } else if king.contains(m) {
        assert(b.one_king(side));
        lemma_moves_from_accepted(b, 5, b.king_square(side), m);
    } else if short.contains(m) {
        lemma_castling_accepted(b, true, m);
    } else if long.contains(m) {
        lemma_castling_accepted(b, false, m);
    } else if bishops.contains(m) {
        lemma_moves_of_accepted(b, 2, m);
    } else if rooks.contains(m) {
        lemma_moves_of_accepted(b, 3, m);
    } else {
        lemma_moves_of_accepted(b, 4, m);
    }
}

} // verus!
