use vstd::prelude::*;
use crate::bits::{bit_at, group_bits, single};
use crate::bits::{lemma_bit_logic, lemma_zero_iff_no_bits};
use crate::board::{pieces_of, Board};
use crate::color::Color;
use crate::piece::PieceType;
use crate::square::Square;
use crate::move_init::{bishop_attacks, king_mask, knight_mask, pawn_capture_mask, ray, rook_attacks, times};
use crate::move_masks::queen_attacks;
use crate::square::{on_board, square_at, square_bit};

verus! {

/// Whether a slider can walk `k` steps of `(df, dr)` from file `f` and row `r`: each square
/// it walks on from holds no blocker, and each step stays on the board. The square it ends
/// on is not asked for a blocker.
pub open spec fn run(f: int, r: int, df: int, dr: int, blockers: u64, k: nat) -> bool
    decreases k,
{
    if k == 0 {
        true
    } else {
        square_bit(f, r) & blockers == 0 && on_board(f + df, r + dr) && run(
            f + df,
            r + dr,
            df,
            dr,
            blockers,
            (k - 1) as nat,
        )
    }
}

/// Whether `(df, dr)` is one step of a sliding piece: a king's step.
pub open spec fn unit(df: int, dr: int) -> bool {
    -1 <= df <= 1 && -1 <= dr <= 1 && (df != 0 || dr != 0)
}

/// A square of a ray is reached by a run from the ray's origin.
pub proof fn lemma_ray_gives_run(f: int, r: int, df: int, dr: int, blockers: u64, n: nat, t: u64)
    requires
        on_board(f, r),
        unit(df, dr),
        t < 64,
        bit_at(ray(f, r, df, dr, blockers, n), t),
    ensures
        exists|k: nat|
            1 <= k <= n && #[trigger] run(f, r, df, dr, blockers, k) && on_board(
                f + times(k as int, df),
                r + times(k as int, dr),
            ) && t == square_at(f + times(k as int, df), r + times(k as int, dr)),
    decreases n,
{
    broadcast use group_bits;
    if n == 0 || !on_board(f + df, r + dr) || square_bit(f, r) & blockers != 0 {
    } else {
        let rest = ray(f + df, r + dr, df, dr, blockers, (n - 1) as nat);
        if bit_at(square_bit(f + df, r + dr), t) {
            assert(run(f + df, r + dr, df, dr, blockers, 0));
            assert(run(f, r, df, dr, blockers, 1));
        } else {
            assert(bit_at(rest, t));
            lemma_ray_gives_run(f + df, r + dr, df, dr, blockers, (n - 1) as nat, t);
            let k = choose|k: nat|
                1 <= k <= n - 1 && #[trigger] run(f + df, r + dr, df, dr, blockers, k)
                    && on_board(f + df + times(k as int, df), r + dr + times(k as int, dr)) && t
                    == square_at(f + df + times(k as int, df), r + dr + times(k as int, dr));
            assert(run(f, r, df, dr, blockers, k + 1));
        }
    }
}

/// A square that a run from the ray's origin ends on is on the ray.
pub proof fn lemma_run_gives_ray(f: int, r: int, df: int, dr: int, blockers: u64, n: nat, k: nat)
    requires
        on_board(f, r),
        unit(df, dr),
        1 <= k <= n,
        run(f, r, df, dr, blockers, k),
    ensures
        on_board(f + times(k as int, df), r + times(k as int, dr)),
        bit_at(
            ray(f, r, df, dr, blockers, n),
            square_at(f + times(k as int, df), r + times(k as int, dr)) as u64,
        ),
    decreases k,
{
    broadcast use group_bits;
    if k == 1 {
        assert(run(f + df, r + dr, df, dr, blockers, 0));
    } else {
        lemma_run_gives_ray(f + df, r + dr, df, dr, blockers, (n - 1) as nat, (k - 1) as nat);
    }
}

/// A run ends on the board.
pub proof fn lemma_run_ends_on_board(f: int, r: int, df: int, dr: int, blockers: u64, k: nat)
    requires
        on_board(f, r),
        unit(df, dr),
        run(f, r, df, dr, blockers, k),
    ensures
        on_board(f + times(k as int, df), r + times(k as int, dr)),
        k <= 7,
    decreases k,
{
    if k > 0 {
        lemma_run_ends_on_board(f + df, r + dr, df, dr, blockers, (k - 1) as nat);
    }
}

proof fn lemma_same_but_one(a: u64, b: u64, e: u64, i: u64)
    by (bit_vector)
    requires
        e < 64,
        i < 64,
        i != e,
        (a ^ b) & !(1u64 << e) == 0,
    ensures
        ((1u64 << i) & a == 0) == ((1u64 << i) & b == 0),
{
}

/// A run does not ask its last square for a blocker: two sets of blockers that differ on
/// that square alone allow the same run.
pub proof fn lemma_run_ignores_end(
    f: int,
    r: int,
    df: int,
    dr: int,
    a: u64,
    b: u64,
    k: nat,
    e: u64,
)
    requires
        on_board(f, r),
        unit(df, dr),
        run(f, r, df, dr, a, k),
        e < 64,
        e == square_at(f + times(k as int, df), r + times(k as int, dr)),
        (a ^ b) & !single(e) == 0,
    ensures
        run(f, r, df, dr, b, k),
    decreases k,
{
    if k > 0 {
        lemma_run_ends_on_board(f, r, df, dr, a, k);
        lemma_same_but_one(a, b, e, square_at(f, r) as u64);
        lemma_run_ignores_end(f + df, r + dr, df, dr, a, b, (k - 1) as nat, e);
    }
}

/// A run of `k` steps goes one step further when its last square holds no blocker and the
/// next square is on the board.
pub proof fn lemma_run_extends(f: int, r: int, df: int, dr: int, blockers: u64, k: nat)
    requires
        unit(df, dr),
        run(f, r, df, dr, blockers, k),
        square_bit(f + times(k as int, df), r + times(k as int, dr)) & blockers == 0,
        on_board(f + times(k as int + 1, df), r + times(k as int + 1, dr)),
    ensures
        run(f, r, df, dr, blockers, k + 1),
    decreases k,
{
    if k == 0 {
        assert(run(f + df, r + dr, df, dr, blockers, 0));
    } else {
        lemma_run_extends(f + df, r + dr, df, dr, blockers, (k - 1) as nat);
    }
}

/// A run can be walked back: from its last square, when that holds no blocker, the same
/// number of opposite steps leads to its first square.
#[verifier::rlimit(50)]
pub proof fn lemma_run_reverses(f: int, r: int, df: int, dr: int, blockers: u64, k: nat)
    requires
        on_board(f, r),
        unit(df, dr),
        run(f, r, df, dr, blockers, k),
        square_bit(f + times(k as int, df), r + times(k as int, dr)) & blockers == 0,
    ensures
        run(f + times(k as int, df), r + times(k as int, dr), -df, -dr, blockers, k),
    decreases k,
{
    if k > 0 {
        let tf = f + times(k as int, df);
        let tr = r + times(k as int, dr);
        lemma_run_reverses(f + df, r + dr, df, dr, blockers, (k - 1) as nat);
        assert(tf == f + df + times(k as int - 1, df));
        assert(tr == r + dr + times(k as int - 1, dr));
        assert(tf + times(k as int - 1, -df) == f + df);
        assert(tr + times(k as int - 1, -dr) == r + dr);
        assert(square_bit(f + df, r + dr) & blockers == 0) by {
            if k == 1 {
            } else {
                assert(run(f + df, r + dr, df, dr, blockers, (k - 1) as nat));
            }
        }
        assert(tf + times(k as int, -df) == f);
        assert(tr + times(k as int, -dr) == r);
        lemma_run_extends(tf, tr, -df, -dr, blockers, (k - 1) as nat);
    }
}

proof fn lemma_blockers_without_ends(occ: u64, s: u64, t: u64)
    by (bit_vector)
    requires
        s < 64,
        t < 64,
    ensures
        ((occ & !(1u64 << s)) ^ (occ & !(1u64 << s) & !(1u64 << t))) & !(1u64 << t) == 0,
        ((occ & !(1u64 << s) & !(1u64 << t)) ^ (occ & !(1u64 << t))) & !(1u64 << s) == 0,
        (1u64 << t) & (occ & !(1u64 << s) & !(1u64 << t)) == 0,
{
}

/// Sliding attacks are mutual along a line: when the ray from `s` in one direction reaches
/// `t`, with the occupied squares other than `s` as blockers, then the ray from `t` in the
/// opposite direction reaches `s`, with the occupied squares other than `t` as blockers.
#[verifier::rlimit(50)]
pub proof fn lemma_ray_symmetric(s: u64, t: u64, df: int, dr: int, occ: u64)
    requires
        s < 64,
        t < 64,
        unit(df, dr),
        bit_at(ray(s as int % 8, s as int / 8, df, dr, occ & !single(s), 7), t),
    ensures
        bit_at(ray(t as int % 8, t as int / 8, -df, -dr, occ & !single(t), 7), s),
{
    let sf = s as int % 8;
    let sr = s as int / 8;
    let from_s = occ & !single(s);
    let from_t = occ & !single(t);
    let both = occ & !single(s) & !single(t);
    lemma_ray_gives_run(sf, sr, df, dr, from_s, 7, t);
    let k = choose|k: nat|
        1 <= k <= 7 && #[trigger] run(sf, sr, df, dr, from_s, k) && on_board(
            sf + times(k as int, df),
            sr + times(k as int, dr),
        ) && t == square_at(sf + times(k as int, df), sr + times(k as int, dr));
    let tf = sf + times(k as int, df);
    let tr = sr + times(k as int, dr);
    assert(tf == t as int % 8 && tr == t as int / 8);
    lemma_blockers_without_ends(occ, s, t);
    lemma_run_ignores_end(sf, sr, df, dr, from_s, both, k, t);
    assert(square_bit(tf, tr) == single(t));
    lemma_run_reverses(sf, sr, df, dr, both, k);
    assert(tf + times(k as int, -df) == sf);
    assert(tr + times(k as int, -dr) == sr);
    lemma_run_ignores_end(tf, tr, -df, -dr, both, from_t, k, s);
    lemma_run_gives_ray(tf, tr, -df, -dr, from_t, 7, k);
}

/// Bishops attack each other: when a bishop on `s` attacks `t`, a bishop on `t` attacks `s`.
pub proof fn lemma_bishop_symmetric(s: u64, t: u64, occ: u64)
    requires
        s < 64,
        t < 64,
        bit_at(bishop_attacks(s as int, occ & !single(s)), t),
    ensures
        bit_at(bishop_attacks(t as int, occ & !single(t)), s),
{
    broadcast use group_bits;
    let sf = s as int % 8;
    let sr = s as int / 8;
    let b = occ & !single(s);
    if bit_at(ray(sf, sr, -1, -1, b, 7), t) {
        lemma_ray_symmetric(s, t, -1, -1, occ);
    } else if bit_at(ray(sf, sr, 1, -1, b, 7), t) {
        lemma_ray_symmetric(s, t, 1, -1, occ);
    } else if bit_at(ray(sf, sr, -1, 1, b, 7), t) {
        lemma_ray_symmetric(s, t, -1, 1, occ);
    } else {
        assert(bit_at(ray(sf, sr, 1, 1, b, 7), t));
        lemma_ray_symmetric(s, t, 1, 1, occ);
    }
}

/// Rooks attack each other: when a rook on `s` attacks `t`, a rook on `t` attacks `s`.
pub proof fn lemma_rook_symmetric(s: u64, t: u64, occ: u64)
    requires
        s < 64,
        t < 64,
        bit_at(rook_attacks(s as int, occ & !single(s)), t),
    ensures
        bit_at(rook_attacks(t as int, occ & !single(t)), s),
{
    broadcast use group_bits;
    let sf = s as int % 8;
    let sr = s as int / 8;
    let b = occ & !single(s);
    if bit_at(ray(sf, sr, 0, -1, b, 7), t) {
        lemma_ray_symmetric(s, t, 0, -1, occ);
    } else if bit_at(ray(sf, sr, 0, 1, b, 7), t) {
        lemma_ray_symmetric(s, t, 0, 1, occ);
    } else if bit_at(ray(sf, sr, -1, 0, b, 7), t) {
        lemma_ray_symmetric(s, t, -1, 0, occ);
    } else {
        assert(bit_at(ray(sf, sr, 1, 0, b, 7), t));
        lemma_ray_symmetric(s, t, 1, 0, occ);
    }
}

/// Queens attack each other: when a queen on `s` attacks `t`, a queen on `t` attacks `s`.
pub proof fn lemma_queen_symmetric(s: u64, t: u64, occ: u64)
    requires
        s < 64,
        t < 64,
        bit_at(queen_attacks(s as int, occ & !single(s)), t),
    ensures
        bit_at(queen_attacks(t as int, occ & !single(t)), s),
{
    broadcast use group_bits;
    if bit_at(bishop_attacks(s as int, occ & !single(s)), t) {
        lemma_bishop_symmetric(s, t, occ);
    } else {
        lemma_rook_symmetric(s, t, occ);
    }
}

/// Knights attack each other: when a knight on `s` attacks `t`, a knight on `t` attacks `s`.
pub proof fn lemma_knight_symmetric(s: u64, t: u64)
    requires
        s < 64,
        t < 64,
        bit_at(knight_mask(s as int), t),
    ensures
        bit_at(knight_mask(t as int), s),
{
    broadcast use group_bits;
}

/// Kings attack each other: when a king on `s` attacks `t`, a king on `t` attacks `s`.
pub proof fn lemma_king_symmetric(s: u64, t: u64)
    requires
        s < 64,
        t < 64,
        bit_at(king_mask(s as int), t),
    ensures
        bit_at(king_mask(t as int), s),
{
    broadcast use group_bits;
}

/// A pawn of one colour on `s` attacks `t` exactly when a pawn of the other colour on `t`
/// would attack `s`.
pub proof fn lemma_pawn_symmetric(color: Color, s: u64, t: u64)
    requires
        s < 64,
        t < 64,
    ensures
        bit_at(pawn_capture_mask(color, s as int), t) == bit_at(
            pawn_capture_mask(color.spec_opposite(), t as int),
            s,
        ),
{
    broadcast use group_bits;
}

proof fn lemma_common_bit(x: u64, y: u64, i: u64)
    requires
        i < 64,
        bit_at(x, i),
        bit_at(y, i),
    ensures
        x & y != 0,
{
    lemma_bit_logic(x, y, i);
    lemma_zero_iff_no_bits(x & y);
}

/// What a piece strikes is attacked: when a piece of the side to move stands on `s` and
/// strikes `t` from there, attack detection finds `t` attacked by that side.
#[verifier::rlimit(50)]
pub proof fn lemma_strike_is_attack(b: Board, role: int, s: u64, t: u64)
    requires
        b.pieces.len() == 12,
        t < 64,
        b.strikes(role, s, t),
    ensures
        b.attacked_by(Square(t as u8), b.side),
{
    let side = b.side;
    let occ = b.all();
    let own = pieces_of(side);
    let piece = PieceType::spec_of(side, role);
    assert(own[role] == piece);
    assert(Square(s as u8).0 as u64 == s);
    if role == 0 {
        lemma_pawn_symmetric(side, s, t);
        lemma_common_bit(pawn_capture_mask(side.spec_opposite(), t as int), b.bb(piece), s);
    } else if role == 1 {
        lemma_knight_symmetric(s, t);
        lemma_common_bit(knight_mask(t as int), b.bb(piece), s);
    } else if role == 2 {
        lemma_bishop_symmetric(s, t, occ);
        lemma_common_bit(bishop_attacks(t as int, occ & !single(t)), b.bb(piece), s);
    } else if role == 3 {
        lemma_rook_symmetric(s, t, occ);
        lemma_common_bit(rook_attacks(t as int, occ & !single(t)), b.bb(piece), s);
    } else if role == 4 {
        lemma_queen_symmetric(s, t, occ);
        lemma_common_bit(queen_attacks(t as int, occ & !single(t)), b.bb(piece), s);
    } else {
        lemma_king_symmetric(s, t);
        lemma_common_bit(king_mask(t as int), b.bb(piece), s);
    }
}

/// Attack detection finds nothing that is not struck: a square that is found attacked by
/// the side to move is struck by one of its pieces.
#[verifier::rlimit(50)]
pub proof fn lemma_attack_is_strike(b: Board, t: u64)
    requires
        b.pieces.len() == 12,
        t < 64,
        b.attacked_by(Square(t as u8), b.side),
    ensures
        exists|role: int, s: u64| #[trigger] b.strikes(role, s, t),
{
    let side = b.side;
    let occ = b.all();
    let own = pieces_of(side);
    assert(own[0] == PieceType::spec_of(side, 0));
    assert(own[1] == PieceType::spec_of(side, 1));
    assert(own[2] == PieceType::spec_of(side, 2));
    assert(own[3] == PieceType::spec_of(side, 3));
    assert(own[4] == PieceType::spec_of(side, 4));
    assert(own[5] == PieceType::spec_of(side, 5));
    let pawn_from = pawn_capture_mask(side.spec_opposite(), t as int);
    let role: int = if pawn_from & b.bb(own[0]) != 0 {
        0
    } else if knight_mask(t as int) & b.bb(own[1]) != 0 {
        1
    } else if bishop_attacks(t as int, occ & !single(t)) & b.bb(own[2]) != 0 {
        2
    } else if rook_attacks(t as int, occ & !single(t)) & b.bb(own[3]) != 0 {
        3
    } else if queen_attacks(t as int, occ & !single(t)) & b.bb(own[4]) != 0 {
        4
    } else {
        5
    };
    let from: u64 = if role == 0 {
        pawn_from
    } else if role == 1 {
        knight_mask(t as int)
    } else if role == 2 {
        bishop_attacks(t as int, occ & !single(t))
    } else if role == 3 {
        rook_attacks(t as int, occ & !single(t))
    } else if role == 4 {
        queen_attacks(t as int, occ & !single(t))
    } else {
        king_mask(t as int)
    };
    let both = from & b.bb(own[role]);
    assert(both != 0);
    lemma_zero_iff_no_bits(both);
    let s = choose|s: u64| s < 64 && bit_at(both, s);
    lemma_bit_logic(from, b.bb(own[role]), s);
    assert(Square(s as u8).0 as u64 == s);
    if role == 0 {
        lemma_pawn_symmetric(side, s, t);
    } else if role == 1 {
        lemma_knight_symmetric(t, s);
    } else if role == 2 {
        lemma_bishop_symmetric(t, s, occ);
    } else if role == 3 {
        lemma_rook_symmetric(t, s, occ);
    } else if role == 4 {
        lemma_queen_symmetric(t, s, occ);
    } else {
        lemma_king_symmetric(t, s);
    }
    assert(b.strikes(role, s, t));
}

} // verus!
