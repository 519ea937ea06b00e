use vstd::prelude::*;
use crate::bit_move::{BitMove, MoveFlag};
use crate::bits::{bit_at, group_bits, lemma_disjoint_bits, popcount, single};
use crate::board::Board;
use crate::color::Color;
use crate::generated::lemma_moves_accepted;
use crate::invariants::{is_king, lemma_accepted_is_permitted, lemma_apply_keeps_wf, lemma_kings_counted, lemma_only_square, lemma_taken_back_wf, lemma_undo_apply, taken_back};
use crate::piece::PieceType;
use crate::position::Position;
use crate::square::{on_board, square_bit, Square};
use crate::move_init::ray;
use crate::symmetry::{lemma_attack_is_strike, lemma_strike_is_attack, unit};
use crate::bitboard::Bitboard;

verus! {

proof fn lemma_start_bits()
    by (bit_vector)
    ensures
        0x00FF_0000_0000_0000u64 & 0x4200_0000_0000_0000u64 == 0,
        0x00FF_0000_0000_0000u64 & 0x2400_0000_0000_0000u64 == 0,
        0x00FF_0000_0000_0000u64 & 0x8100_0000_0000_0000u64 == 0,
        0x00FF_0000_0000_0000u64 & 0x0800_0000_0000_0000u64 == 0,
        0x00FF_0000_0000_0000u64 & 0x1000_0000_0000_0000u64 == 0,
        0x4200_0000_0000_0000u64 & 0x2400_0000_0000_0000u64 == 0,
        0x4200_0000_0000_0000u64 & 0x8100_0000_0000_0000u64 == 0,
        0x4200_0000_0000_0000u64 & 0x0800_0000_0000_0000u64 == 0,
        0x4200_0000_0000_0000u64 & 0x1000_0000_0000_0000u64 == 0,
        0x2400_0000_0000_0000u64 & 0x8100_0000_0000_0000u64 == 0,
        0x2400_0000_0000_0000u64 & 0x0800_0000_0000_0000u64 == 0,
        0x2400_0000_0000_0000u64 & 0x1000_0000_0000_0000u64 == 0,
        0x8100_0000_0000_0000u64 & 0x0800_0000_0000_0000u64 == 0,
        0x8100_0000_0000_0000u64 & 0x1000_0000_0000_0000u64 == 0,
        0x0800_0000_0000_0000u64 & 0x1000_0000_0000_0000u64 == 0,
        0xFF00u64 & 0x42u64 == 0,
        0xFF00u64 & 0x24u64 == 0,
        0xFF00u64 & 0x81u64 == 0,
        0xFF00u64 & 0x08u64 == 0,
        0xFF00u64 & 0x10u64 == 0,
        0x42u64 & 0x24u64 == 0,
        0x42u64 & 0x81u64 == 0,
        0x42u64 & 0x08u64 == 0,
        0x42u64 & 0x10u64 == 0,
        0x24u64 & 0x81u64 == 0,
        0x24u64 & 0x08u64 == 0,
        0x24u64 & 0x10u64 == 0,
        0x81u64 & 0x08u64 == 0,
        0x81u64 & 0x10u64 == 0,
        0x08u64 & 0x10u64 == 0,
        0x1000_0000_0000_0000u64 == 1u64 << 60,
        0x10u64 == 1u64 << 4,
        (0x8100_0000_0000_0000u64 >> 63) & 1 == 1,
        (0x8100_0000_0000_0000u64 >> 56) & 1 == 1,
        (0x81u64 >> 7) & 1 == 1,
        (0x81u64 >> 0) & 1 == 1,
{
}

proof fn lemma_sides_of_start(x: u64, y: u64)
    by (bit_vector)
    requires
        x & 0x0000_FFFF_FFFF_FFFFu64 == 0,
        y & 0xFFFF_FFFF_FFFF_0000u64 == 0,
    ensures
        x & y == 0,
{
}

proof fn lemma_start_halves()
    by (bit_vector)
    ensures
        0x00FF_0000_0000_0000u64 & 0x0000_FFFF_FFFF_FFFFu64 == 0,
        0x4200_0000_0000_0000u64 & 0x0000_FFFF_FFFF_FFFFu64 == 0,
        0x2400_0000_0000_0000u64 & 0x0000_FFFF_FFFF_FFFFu64 == 0,
        0x8100_0000_0000_0000u64 & 0x0000_FFFF_FFFF_FFFFu64 == 0,
        0x0800_0000_0000_0000u64 & 0x0000_FFFF_FFFF_FFFFu64 == 0,
        0x1000_0000_0000_0000u64 & 0x0000_FFFF_FFFF_FFFFu64 == 0,
        0xFF00u64 & 0xFFFF_FFFF_FFFF_0000u64 == 0,
        0x42u64 & 0xFFFF_FFFF_FFFF_0000u64 == 0,
        0x24u64 & 0xFFFF_FFFF_FFFF_0000u64 == 0,
        0x81u64 & 0xFFFF_FFFF_FFFF_0000u64 == 0,
        0x08u64 & 0xFFFF_FFFF_FFFF_0000u64 == 0,
        0x10u64 & 0xFFFF_FFFF_FFFF_0000u64 == 0,
{
}

/// The position at the start of a game is well formed: its piece boards are pairwise
/// disjoint, each side has one king, there is no en-passant square, and the four castling
/// rights have their kings and rooks at home.
#[verifier::rlimit(50)]
pub proof fn law_start_is_well_formed()
    ensures
        Board::start().wf(),
{
    broadcast use group_bits;
    let b = Board::start();
    lemma_start_bits();
    lemma_start_halves();
    assert forall|p: PieceType, q: PieceType, t: u64|
        p.is_piece() && q.is_piece() && p != q && t < 64 implies !(#[trigger] b.holds(p, t)
            && #[trigger] b.holds(q, t)) by {
        let x = b.bb(p);
        let y = b.bb(q);
        if p.spec_color() == Color::White && q.spec_color() == Color::Black {
            lemma_sides_of_start(x, y);
        } else if p.spec_color() == Color::Black && q.spec_color() == Color::White {
            lemma_sides_of_start(y, x);
            assert(x & y == y & x) by (bit_vector);
        } else if p.spec_index() > q.spec_index() {
            assert(x & y == y & x) by (bit_vector);
        }
        assert(x & y == 0);
        lemma_disjoint_bits(x, y);
    }
    assert(b.bb(PieceType::WK) == single(60));
    assert(b.bb(PieceType::BK) == single(4));
    lemma_only_square(b.bb(PieceType::WK), 60);
    lemma_only_square(b.bb(PieceType::BK), 4);
    assert(b.one_king(Color::White));
    assert(b.one_king(Color::Black));
    assert(15u8 & 1 != 0 && 15u8 & 2 != 0 && 15u8 & 4 != 0 && 15u8 & 8 != 0) by (bit_vector);
    assert(b.holds(PieceType::WK, 60));
    assert(b.holds(PieceType::BK, 4));
    assert(b.holds(PieceType::WR, 63));
    assert(b.holds(PieceType::WR, 56));
    assert(b.holds(PieceType::BR, 7));
    assert(b.holds(PieceType::BR, 0));
}

/// A pseudo-legal move of a well-formed position can be made, and, unless it captures a
/// king, both outcomes of making it are well-formed positions again: the position after the
/// move, and the position that is left when the move is turned down and taken back. So
/// the piece boards stay pairwise disjoint, each side keeps exactly one king, and the
/// en-passant square, when set, lies on the third row from the top with White to move and on
/// the sixth with Black to move.
#[verifier::rlimit(50)]
pub proof fn law_moves_keep_well_formed(b: Board, m: BitMove)
    requires
        b.wf(),
        b.moves().contains(m),
        !is_king(m.spec_capture()),
    ensures
        b.accepts(m),
        b.permits(m),
        b.apply(m).wf(),
        b.apply(m).undo(m, b.rights).wf(),
{
    lemma_moves_accepted(b, m);
    lemma_accepted_is_permitted(b, m);
    lemma_apply_keeps_wf(b, m);
    lemma_undo_apply(b, m);
    lemma_taken_back_wf(b, m);
}

/// Making a pseudo-legal move and taking it back with the rights saved before gives the
/// position of before: the twelve piece boards, the side, the rights and the en-passant
/// square. The position must have no en-passant square, unless the move is the en-passant
/// capture: taking a move back does not bring another move's en-passant square back.
pub proof fn law_round_trip(b: Board, m: BitMove)
    requires
        b.wf(),
        b.moves().contains(m),
        b.en_passant.0 == Square::NONE || m.spec_flag() == MoveFlag::WEnPassant || m.spec_flag()
            == MoveFlag::BEnPassant,
    ensures
        b.apply(m).undo(m, b.rights) == b,
{
    lemma_moves_accepted(b, m);
    lemma_undo_apply(b, m);
    assert(taken_back(b, m).en_passant == b.en_passant);
}

/// Making any pseudo-legal move and taking it back restores everything but, at most, the
/// en-passant square, which is then none.
pub proof fn law_round_trip_but_en_passant(b: Board, m: BitMove)
    requires
        b.wf(),
        b.moves().contains(m),
    ensures
        b.apply(m).undo(m, b.rights) == taken_back(b, m),
        taken_back(b, m).pieces == b.pieces,
        taken_back(b, m).side == b.side,
        taken_back(b, m).rights == b.rights,
{
    lemma_moves_accepted(b, m);
    lemma_undo_apply(b, m);
}

/// In a position that a game can reach, no pseudo-legal move captures a king: the king of
/// the side that moved last is not attacked, and what a capture takes is attacked.
pub proof fn lemma_no_king_capture(b: Board, m: BitMove)
    requires
        b.legal(),
        b.moves().contains(m),
    ensures
        !is_king(m.spec_capture()),
{
    lemma_moves_accepted(b, m);
    if is_king(m.spec_capture()) {
        let enemy = b.side.spec_opposite();
        let t = m.spec_target().0 as u64;
        assert(m.spec_capture() == PieceType::spec_of(enemy, 5));
        assert(b.one_king(enemy));
        assert(b.holds(PieceType::spec_of(enemy, 5), t));
        assert(t == b.king_square(enemy).0);
        let (role, s) = choose|role: int, s: u64| #[trigger] b.strikes(role, s, t);
        lemma_strike_is_attack(b, role, s, t);
        assert(Square(t as u8) == b.king_square(enemy));
    }
}

proof fn lemma_start_blocked(i: u64, s: u64)
    by (bit_vector)
    requires
        48 <= i < 64,
        56 <= s < 64,
        i != s,
    ensures
        (1u64 << i) & (0xFFFF_0000_0000_FFFFu64 & !(1u64 << s)) != 0,
{
}

/// At the start, a slider on White's back rank reaches no square above White's pawns.
proof fn lemma_start_ray(s: u64, df: int, dr: int, t: u64)
    requires
        56 <= s < 64,
        unit(df, dr),
        t < 48,
    ensures
        !bit_at(
            ray(s as int % 8, 7, df, dr, Bitboard::ALL_STARTING_PIECES & !single(s), 7),
            t,
        ),
{
    broadcast use group_bits;
    reveal_with_fuel(ray, 3);
    let f = s as int % 8;
    let blockers = Bitboard::ALL_STARTING_PIECES & !single(s);
    if on_board(f + df, 7 + dr) {
        let i = ((7 + dr) * 8 + f + df) as u64;
        lemma_start_blocked(i, s);
        assert(square_bit(f + df, 7 + dr) == single(i));
        assert(ray(f + df, 7 + dr, df, dr, blockers, 6) == 0);
    }
}

/// The position at the start of a game is one that a game can reach: it is well formed, and
/// no white piece attacks the black king.
#[verifier::rlimit(50)]
pub proof fn law_start_is_legal()
    ensures
        Board::start().legal(),
{
    broadcast use group_bits;
    let b = Board::start();
    law_start_is_well_formed();
    lemma_start_bits();
    lemma_start_halves();
    crate::position::lemma_starting_occupancies();
    assert(b.bb(PieceType::BK) == single(4));
    lemma_only_square(b.bb(PieceType::BK), 4);
    assert(b.king_square(Color::Black) == Square(4));
    if b.attacked_by(Square(4), Color::White) {
        lemma_attack_is_strike(b, 4);
        let (role, s) = choose|role: int, s: u64| #[trigger] b.strikes(role, s, 4);
        let piece = PieceType::spec_of(Color::White, role);
        let x = b.bb(piece);
        assert(x & 0x0000_FFFF_FFFF_FFFFu64 == 0);
        assert(s >= 48) by {
            lemma_high_bits(x, s);
        }
        if role >= 2 && role <= 4 {
            assert(s >= 56) by {
                lemma_back_rank(x, s);
            }
            let blockers = b.all() & !single(s);
            lemma_start_ray(s, -1, -1, 4);
            lemma_start_ray(s, 1, -1, 4);
            lemma_start_ray(s, -1, 1, 4);
            lemma_start_ray(s, 1, 1, 4);
            lemma_start_ray(s, 0, -1, 4);
            lemma_start_ray(s, 0, 1, 4);
            lemma_start_ray(s, -1, 0, 4);
            lemma_start_ray(s, 1, 0, 4);
            assert(false);
        }
        assert(false);
    }
}

proof fn lemma_high_bits(x: u64, s: u64)
    by (bit_vector)
    requires
        s < 64,
        x & 0x0000_FFFF_FFFF_FFFFu64 == 0,
        (x >> s) & 1 == 1,
    ensures
        s >= 48,
{
}

proof fn lemma_back_rank(x: u64, s: u64)
    by (bit_vector)
    requires
        s < 64,
        x == 0x2400_0000_0000_0000u64 || x == 0x8100_0000_0000_0000u64 || x
            == 0x0800_0000_0000_0000u64,
        (x >> s) & 1 == 1,
    ensures
        s >= 56,
{
}

/// A pseudo-legal move of a position that a game can reach can be made, and both outcomes
/// of making it are well formed again: the piece boards stay pairwise disjoint, each side
/// keeps exactly one king, and the en-passant square, when set, lies on the third row from
/// the top with White to move and on the sixth with Black to move. The position after the
/// move can itself be reached when the move does not leave the mover's king attacked, which
/// is when `make_move` returns true; the position that is left when the move is turned down
/// can be reached too.
#[verifier::rlimit(50)]
pub proof fn law_moves_keep_legal(b: Board, m: BitMove)
    requires
        b.legal(),
        b.moves().contains(m),
    ensures
        b.permits(m),
        b.apply(m).wf(),
        b.apply(m).legal() == !b.apply(m).attacked_by(
            b.apply(m).king_square(b.side),
            b.side.spec_opposite(),
        ),
        b.apply(m).undo(m, b.rights).legal(),
{
    lemma_no_king_capture(b, m);
    law_moves_keep_well_formed(b, m);
    lemma_taken_back_safe(b, m);
    lemma_safe_after(b, m);
    assert(b.apply(m).undo(m, b.rights) == taken_back(b, m)) by {
        lemma_moves_accepted(b, m);
        lemma_undo_apply(b, m);
    }
}

/// After a move, the position is safe exactly when the mover's king is not attacked.
pub proof fn lemma_safe_after(b: Board, m: BitMove)
    ensures
        b.apply(m).safe() == !b.apply(m).attacked_by(
            b.apply(m).king_square(b.side),
            b.side.spec_opposite(),
        ),
{
    let a = b.apply(m);
    assert(a.side == b.side.spec_opposite());
    assert(a.side.spec_opposite() == b.side);
}

/// Losing the en-passant square changes no attack.
pub proof fn lemma_taken_back_safe(b: Board, m: BitMove)
    requires
        b.safe(),
    ensures
        taken_back(b, m).safe(),
{
    let k = taken_back(b, m);
    assert(k.pieces == b.pieces);
    assert(k.all() == b.all());
    assert(k.king_square(k.side.spec_opposite()) == b.king_square(b.side.spec_opposite()));
}

/// What a well-formed position is, in terms of the boards themselves: no two piece boards
/// share a square, each king's board holds exactly one square, and the en-passant square,
/// when there is one, lies on the third row from the top with White to move and on the sixth
/// with Black to move.
pub proof fn law_well_formed_boards(b: Board)
    requires
        b.wf(),
    ensures
        forall|i: int, j: int| 0 <= i < j < 12 ==> #[trigger] b.pieces[i] & #[trigger] b.pieces[j] == 0,
        popcount(b.bb(PieceType::WK)) == 1,
        popcount(b.bb(PieceType::BK)) == 1,
        b.en_passant.0 <= 64,
        b.en_passant.0 < 64 ==> b.en_passant.0 / 8 == (match b.side {
            Color::White => 2int,
            Color::Black => 5int,
        }),
{
    lemma_kings_counted(b);
    assert forall|i: int, j: int| 0 <= i < j < 12 implies #[trigger] b.pieces[i]
        & #[trigger] b.pieces[j] == 0 by {
        let p = PieceType::spec_from_index(i);
        let q = PieceType::spec_from_index(j);
        assert forall|t: u64| t < 64 implies !(#[trigger] bit_at(b.pieces[i], t) && bit_at(
            b.pieces[j],
            t,
        )) by {
            assert(!(b.holds(p, t) && b.holds(q, t)));
        }
        lemma_disjoint_bits(b.pieces[i], b.pieces[j]);
    }
}

/// Attack detection is right both ways: a square is found attacked by the side to move
/// exactly when one of that side's pieces strikes it, a pawn by its capture squares, a
/// knight or king by its mask, a slider along a ray that no piece blocks.
pub proof fn law_attack_symmetry(b: Board, t: u64)
    requires
        b.pieces.len() == 12,
        t < 64,
    ensures
        b.attacked_by(Square(t as u8), b.side) == (exists|role: int, s: u64| #[trigger]
            b.strikes(role, s, t)),
{
    if b.attacked_by(Square(t as u8), b.side) {
        lemma_attack_is_strike(b, t);
    }
    if exists|role: int, s: u64| #[trigger] b.strikes(role, s, t) {
        let (role, s) = choose|role: int, s: u64| #[trigger] b.strikes(role, s, t);
        lemma_strike_is_attack(b, role, s, t);
    }
}

/// Two positions with the same pieces, side, en-passant square and rights, whose
/// occupancies are the unions of their piece boards, are the same in every field.
pub proof fn lemma_same_view_same_position(p: Position, q: Position)
    requires
        p@ == q@,
        p.occupancy_ok(),
        q.occupancy_ok(),
    ensures
        p == q,
{
    assert forall|i: int| 0 <= i < 12 implies p.bbs[i] == q.bbs[i] by {
        assert(p@.pieces[i] == q@.pieces[i]);
    }
    assert(p.bbs =~= q.bbs);
}

/// The round trip on positions: when a pseudo-legal move has been made on a well-formed
/// position and is taken back with the rights saved before, the position is again what it
/// was in every field: the twelve piece boards, the three occupancies, the side, the
/// en-passant square and the rights. The position must have no en-passant square, unless
/// the move is the en-passant capture.
pub proof fn law_round_trip_of_positions(before: Position, m: BitMove, after: Position)
    requires
        before.wf(),
        before@.moves().contains(m),
        before@.en_passant.0 == Square::NONE || m.spec_flag() == MoveFlag::WEnPassant
            || m.spec_flag() == MoveFlag::BEnPassant,
        after@ == before@.apply(m).undo(m, before.castling_rights),
        after.occupancy_ok(),
    ensures
        after == before,
{
    law_round_trip(before@, m);
    lemma_same_view_same_position(after, before);
}

} // verus!
