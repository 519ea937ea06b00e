use vstd::prelude::*;
use crate::bitboard::Bitboard;
use crate::bits::{bit_at, drop_lowest, lemma_bits_equal, lemma_drop_lowest, lemma_lowest, lemma_single_shift, lowest, popcount, single, group_bits};
use crate::color::Color;
use crate::direction::{lemma_step, Direction};
use crate::file::File;
use crate::magic_bitboards::{BISHOP_MAGIC_BITBOARDS, BISHOP_RELEVANT_BITS, ROOK_MAGIC_BITBOARDS, ROOK_RELEVANT_BITS};
use crate::move_masks::{compute_magic_index, lemma_relevant_bits, magic_index, MoveMasks, BISHOP_TABLE_SIZE, ROOK_TABLE_SIZE};
use crate::rank::Rank;
use crate::square::{on_board, square_bit, Square};

verus! {

/// The squares a pawn of `color` on square `sq` may push to on an empty board: one step
/// ahead, and two from its home rank.
pub open spec fn pawn_quiet_mask(color: Color, sq: int) -> u64 {
    let f = sq % 8;
    let r = sq / 8;
    match color {
        Color::White => square_bit(f, r - 1) | (if r == 6 {
            square_bit(f, r - 2)
        } else {
            0
        }),
        Color::Black => square_bit(f, r + 1) | (if r == 1 {
            square_bit(f, r + 2)
        } else {
            0
        }),
    }
}

/// The squares a pawn of `color` on square `sq` attacks: the two diagonal neighbours ahead.
pub open spec fn pawn_capture_mask(color: Color, sq: int) -> u64 {
    let f = sq % 8;
    let r = sq / 8;
    match color {
        Color::White => square_bit(f - 1, r - 1) | square_bit(f + 1, r - 1),
        Color::Black => square_bit(f - 1, r + 1) | square_bit(f + 1, r + 1),
    }
}

/// The squares a knight on square `sq` attacks.
pub open spec fn knight_mask(sq: int) -> u64 {
    let f = sq % 8;
    let r = sq / 8;
    square_bit(f - 1, r - 2) | square_bit(f - 1, r + 2) | square_bit(f - 2, r - 1) | square_bit(
        f - 2,
        r + 1,
    ) | square_bit(f + 1, r - 2) | square_bit(f + 1, r + 2) | square_bit(f + 2, r - 1)
        | square_bit(f + 2, r + 1)
}

/// The squares a king on square `sq` attacks.
pub open spec fn king_mask(sq: int) -> u64 {
    let f = sq % 8;
    let r = sq / 8;
    square_bit(f, r - 1) | square_bit(f, r + 1) | square_bit(f - 1, r) | square_bit(f - 1, r - 1)
        | square_bit(f - 1, r + 1) | square_bit(f + 1, r - 1) | square_bit(f + 1, r) | square_bit(
        f + 1,
        r + 1,
    )
}

/// The squares a slider reaches from file `f` and row `r` by steps of `(df, dr)`: it walks on
/// from a square while that square holds no blocker and the next one is on the board, and it
/// reaches every square it steps onto. `steps` bounds the walk; seven cross the board.
pub open spec fn ray(f: int, r: int, df: int, dr: int, blockers: u64, steps: nat) -> u64
    decreases steps,
{
    if steps == 0 || !on_board(f + df, r + dr) || square_bit(f, r) & blockers != 0 {
        0
    } else {
        square_bit(f + df, r + dr) | ray(f + df, r + dr, df, dr, blockers, (steps - 1) as nat)
    }
}

/// The squares on the walk from file `f` and row `r` by steps of `(df, dr)` from which the
/// walk can go on: the start and every square of the ray but the last one on the board.
pub open spec fn ray_inner(f: int, r: int, df: int, dr: int, steps: nat) -> u64
    decreases steps,
{
    if steps == 0 || !on_board(f + df, r + dr) {
        0
    } else {
        square_bit(f, r) | ray_inner(f + df, r + dr, df, dr, (steps - 1) as nat)
    }
}

/// The ray of square `sq` in direction `d` with the given blockers.
pub open spec fn ray_of(sq: int, d: Direction, blockers: u64) -> u64 {
    ray(sq % 8, sq / 8, d.df(), d.dr(), blockers, 7)
}

/// The inner squares of the walk from square `sq` in direction `d`.
pub open spec fn ray_inner_of(sq: int, d: Direction) -> u64 {
    ray_inner(sq % 8, sq / 8, d.df(), d.dr(), 7)
}

/// The squares a bishop on `sq` attacks when the squares of `blockers` are occupied. A
/// blocker on `sq` itself stops every ray at once.
pub open spec fn bishop_attacks(sq: int, blockers: u64) -> u64 {
    ray_of(sq, Direction::UpLeft, blockers) | ray_of(sq, Direction::UpRight, blockers) | ray_of(
        sq,
        Direction::DownLeft,
        blockers,
    ) | ray_of(sq, Direction::DownRight, blockers)
}

/// The squares a rook on `sq` attacks when the squares of `blockers` are occupied. A blocker
/// on `sq` itself stops every ray at once.
pub open spec fn rook_attacks(sq: int, blockers: u64) -> u64 {
    ray_of(sq, Direction::Up, blockers) | ray_of(sq, Direction::Down, blockers) | ray_of(
        sq,
        Direction::Left,
        blockers,
    ) | ray_of(sq, Direction::Right, blockers)
}

/// The squares whose occupancy decides what a bishop on `sq` attacks: its rays without the
/// last square of each and without `sq`.
pub open spec fn bishop_mask(sq: int) -> u64 {
    (ray_inner_of(sq, Direction::UpLeft) | ray_inner_of(sq, Direction::UpRight) | ray_inner_of(
        sq,
        Direction::DownLeft,
    ) | ray_inner_of(sq, Direction::DownRight)) & !single(sq as u64)
}

/// The squares whose occupancy decides what a rook on `sq` attacks: its rays without the last
/// square of each and without `sq`.
pub open spec fn rook_mask(sq: int) -> u64 {
    (ray_inner_of(sq, Direction::Up) | ray_inner_of(sq, Direction::Down) | ray_inner_of(
        sq,
        Direction::Left,
    ) | ray_inner_of(sq, Direction::Right)) & !single(sq as u64)
}

/// The subset of `mask` picked by `index`: the `i`-th lowest square of `mask` is in it when
/// bit `i` of `index` is set, for the first `num_bits` squares of `mask`.
pub open spec fn occupancy_permutation(index: u32, num_bits: nat, mask: u64) -> u64
    decreases num_bits,
{
    if num_bits == 0 {
        0
    } else {
        let rest = occupancy_permutation(index >> 1, (num_bits - 1) as nat, drop_lowest(mask));
        if index & 1 != 0 {
            single(lowest(mask)) | rest
        } else {
            rest
        }
    }
}

proof fn lemma_or_laws(a: u64, b: u64, c: u64)
    by (bit_vector)
    ensures
        a | (b | c) == (a | b) | c,
        a | 0 == a,
        0 | a == a,
        a | b == b | a,
{
}

/// The board of `square` shifted towards the 8th rank, as the square `n` indices lower.
proof fn lemma_up(square: Square, n: u64, df: int, dr: int)
    requires
        square.is_some(),
        n < 64,
        dr * 8 + df == -n,
        0 <= square.file_index() + df < 8,
    ensures
        single(square.0 as u64) >> n == square_bit(
            square.file_index() + df,
            square.rank_index() + dr,
        ),
{
    lemma_single_shift(square.0 as u64, n);
}

/// The board of `square` shifted towards the 1st rank, as the square `n` indices higher.
proof fn lemma_down(square: Square, n: u64, df: int, dr: int)
    requires
        square.is_some(),
        n < 64,
        dr * 8 + df == n,
        0 <= square.file_index() + df < 8,
    ensures
        single(square.0 as u64) << n == square_bit(
            square.file_index() + df,
            square.rank_index() + dr,
        ),
{
    lemma_single_shift(square.0 as u64, n);
}

/// The quiet pushes of a pawn of `color` on `square`.
pub fn generate_pawn_quiet_mask(color: Color, square: Square) -> (r: Bitboard)
    requires
        square.is_some(),
    ensures
        r.0 == pawn_quiet_mask(color, square.0 as int),
{
    let mut bb_mask = Bitboard::empty();
    let square_bb = square.to_bb();
    let square_rank = square.rank();
    proof {
        lemma_up(square, 8, 0, -1);
        lemma_up(square, 16, 0, -2);
        lemma_down(square, 8, 0, 1);
        lemma_down(square, 16, 0, 2);
        lemma_or_laws(bb_mask.0, 0, 0);
    }
    match color {
        Color::White => {
            bb_mask = bb_mask.union(square_bb.shift_upwards(8));
            if square_rank == Rank::R2 {
                bb_mask = bb_mask.union(square_bb.shift_upwards(16));
            }
        },
        Color::Black => {
            bb_mask = bb_mask.union(square_bb.shift_downwards(8));
            if square_rank == Rank::R7 {
                bb_mask = bb_mask.union(square_bb.shift_downwards(16));
            }
        },
    };
    proof {
        broadcast use group_bits;
        assert forall|i: u64| i < 64 implies bit_at(bb_mask.0, i) == bit_at(
            pawn_quiet_mask(color, square.0 as int),
            i,
        ) by {}
        lemma_bits_equal(bb_mask.0, pawn_quiet_mask(color, square.0 as int));
    }
    bb_mask
}

/// The squares a pawn of `color` on `square` attacks.
pub fn generate_pawn_capture_mask(color: Color, square: Square) -> (r: Bitboard)
    requires
        square.is_some(),
    ensures
        r.0 == pawn_capture_mask(color, square.0 as int),
{
    let mut bb_mask = Bitboard::empty();
    let square_bb = square.to_bb();
    let square_file = square.file();
    proof {
        if square.file_index() != 0 {
            lemma_up(square, 9, -1, -1);
            lemma_down(square, 7, -1, 1);
        }
        if square.file_index() != 7 {
            lemma_up(square, 7, 1, -1);
            lemma_down(square, 9, 1, 1);
        }
    }
    match color {
        Color::White => {
            if square_file != File::FA {
                bb_mask = bb_mask.union(square_bb.shift_upwards(9));
            }
            if square_file != File::FH {
                bb_mask = bb_mask.union(square_bb.shift_upwards(7));
            }
        },
        Color::Black => {
            if square_file != File::FA {
                bb_mask = bb_mask.union(square_bb.shift_downwards(7));
            }
            if square_file != File::FH {
                bb_mask = bb_mask.union(square_bb.shift_downwards(9));
            }
        },
    };
    proof {
        broadcast use group_bits;
        assert forall|i: u64| i < 64 implies bit_at(bb_mask.0, i) == bit_at(
            pawn_capture_mask(color, square.0 as int),
            i,
        ) by {}
        lemma_bits_equal(bb_mask.0, pawn_capture_mask(color, square.0 as int));
    }
    bb_mask
}

/// The squares a knight on `square` attacks.
pub fn generate_knight_mask(square: Square) -> (r: Bitboard)
    requires
        square.is_some(),
    ensures
        r.0 == knight_mask(square.0 as int),
{
    let mut bb_mask = Bitboard::empty();
    let square_bb = square.to_bb();
    let square_file = square.file();
    proof {
        if square.file_index() >= 1 {
            lemma_up(square, 17, -1, -2);
            lemma_down(square, 15, -1, 2);
        }
        if square.file_index() >= 2 {
            lemma_up(square, 10, -2, -1);
            lemma_down(square, 6, -2, 1);
        }
        if square.file_index() <= 6 {
            lemma_up(square, 15, 1, -2);
            lemma_down(square, 17, 1, 2);
        }
        if square.file_index() <= 5 {
            lemma_up(square, 6, 2, -1);
            lemma_down(square, 10, 2, 1);
        }
    }
    if square_file != File::FA {
        bb_mask = bb_mask.union(square_bb.shift_upwards(17));
        bb_mask = bb_mask.union(square_bb.shift_downwards(15));
        if square_file != File::FB {
            bb_mask = bb_mask.union(square_bb.shift_upwards(10));
            bb_mask = bb_mask.union(square_bb.shift_downwards(6));
        }
    }
    if square_file != File::FH {
        bb_mask = bb_mask.union(square_bb.shift_upwards(15));
        bb_mask = bb_mask.union(square_bb.shift_downwards(17));
        if square_file != File::FG {
            bb_mask = bb_mask.union(square_bb.shift_upwards(6));
            bb_mask = bb_mask.union(square_bb.shift_downwards(10));
        }
    }
    proof {
        broadcast use group_bits;
        assert forall|i: u64| i < 64 implies bit_at(bb_mask.0, i) == bit_at(
            knight_mask(square.0 as int),
            i,
        ) by {}
        lemma_bits_equal(bb_mask.0, knight_mask(square.0 as int));
    }
    bb_mask
}

/// The squares a king on `square` attacks.
pub fn generate_king_mask(square: Square) -> (r: Bitboard)
    requires
        square.is_some(),
    ensures
        r.0 == king_mask(square.0 as int),
{
    let mut bb_mask = Bitboard::empty();
    let square_bb = square.to_bb();
    let square_file = square.file();
    proof {
        lemma_up(square, 8, 0, -1);
        lemma_down(square, 8, 0, 1);
        if square.file_index() != 0 {
            lemma_up(square, 1, -1, 0);
            lemma_up(square, 9, -1, -1);
            lemma_down(square, 7, -1, 1);
        }
        if square.file_index() != 7 {
            lemma_up(square, 7, 1, -1);
            lemma_down(square, 1, 1, 0);
            lemma_down(square, 9, 1, 1);
        }
    }
    bb_mask = bb_mask.union(square_bb.shift_upwards(8));
    bb_mask = bb_mask.union(square_bb.shift_downwards(8));
    if square_file != File::FA {
        bb_mask = bb_mask.union(square_bb.shift_upwards(1));
        bb_mask = bb_mask.union(square_bb.shift_upwards(9));
        bb_mask = bb_mask.union(square_bb.shift_downwards(7));
    }
    if square_file != File::FH {
        bb_mask = bb_mask.union(square_bb.shift_upwards(7));
        bb_mask = bb_mask.union(square_bb.shift_downwards(1));
        bb_mask = bb_mask.union(square_bb.shift_downwards(9));
    }
    proof {
        broadcast use group_bits;
        assert forall|i: u64| i < 64 implies bit_at(bb_mask.0, i) == bit_at(
            king_mask(square.0 as int),
            i,
        ) by {}
        lemma_bits_equal(bb_mask.0, king_mask(square.0 as int));
    }
    bb_mask
}

/// Walks from `square` in direction `d` and returns the squares stepped onto: the walk goes
/// on from a square that holds no blocker while the next square is on the board.
#[verifier::rlimit(50)]
fn walk_ray(square: Square, blockers: Bitboard, d: Direction) -> (r: Bitboard)
    requires
        square.is_some(),
    ensures
        r.0 == ray_of(square.0 as int, d, blockers.0),
{
    let mut bb_mask = Bitboard(0);
    let mut seeker = Bitboard(1u64 << (square.0 as u64));
    let edge = d.edge();
    let ghost mut at: Square = square;
    let ghost mut left: nat = 7;
    proof {
        lemma_or_laws(ray_of(square.0 as int, d, blockers.0), 0, 0);
        lemma_step(d, at);
    }
    while seeker.0 & edge.0 == 0 && seeker.0 & blockers.0 == 0
        invariant
            square.is_some(),
            at.is_some(),
            left <= 7,
            seeker.0 == single(at.0 as u64),
            seeker.0 == square_bit(at.file_index(), at.rank_index()),
            edge.0 == d.spec_edge(),
            at.file_index() == square.file_index() + times(7 - left, d.df()),
            at.rank_index() == square.rank_index() + times(7 - left, d.dr()),
            (seeker.0 & edge.0 == 0) == on_board(
                at.file_index() + d.df(),
                at.rank_index() + d.dr(),
            ),
            bb_mask.0 | ray(
                at.file_index(),
                at.rank_index(),
                d.df(),
                d.dr(),
                blockers.0,
                left,
            ) == ray_of(square.0 as int, d, blockers.0),
        decreases left,
    {
        let ghost next = Square((at.0 + d.dr() * 8 + d.df()) as u8);
        proof {
            lemma_step(d, at);
            assert(seeker.0 & edge.0 == 0);
            assert(on_board(at.file_index() + d.df(), at.rank_index() + d.dr()));
            assert(0 <= square.file_index() < 8 && 0 <= square.rank_index() < 8);
            assert(d.df() != 0 || d.dr() != 0);
            assert(left > 0);
            lemma_or_laws(
                bb_mask.0,
                square_bit(next.file_index(), next.rank_index()),
                ray(
                    next.file_index(),
                    next.rank_index(),
                    d.df(),
                    d.dr(),
                    blockers.0,
                    (left - 1) as nat,
                ),
            );
        }
        seeker = d.step(seeker);
        bb_mask = Bitboard(bb_mask.0 | seeker.0);
        proof {
            at = next;
            left = (left - 1) as nat;
            lemma_step(d, at);
        }
    }
    proof {
        lemma_or_laws(bb_mask.0, 0, 0);
    }
    bb_mask
}

/// Walks from `square` in direction `d` over an empty board and returns the squares from
/// which the walk went on, `square` among them.
#[verifier::rlimit(50)]
fn walk_inner(square: Square, d: Direction) -> (r: Bitboard)
    requires
        square.is_some(),
    ensures
        r.0 == ray_inner_of(square.0 as int, d),
{
    let mut bb_mask = Bitboard(0);
    let mut seeker = Bitboard(1u64 << (square.0 as u64));
    let edge = d.edge();
    let ghost mut at: Square = square;
    let ghost mut left: nat = 7;
    proof {
        lemma_or_laws(ray_inner_of(square.0 as int, d), 0, 0);
        lemma_step(d, at);
    }
    while seeker.0 & edge.0 == 0
        invariant
            square.is_some(),
            at.is_some(),
            left <= 7,
            seeker.0 == single(at.0 as u64),
            seeker.0 == square_bit(at.file_index(), at.rank_index()),
            edge.0 == d.spec_edge(),
            at.file_index() == square.file_index() + times(7 - left, d.df()),
            at.rank_index() == square.rank_index() + times(7 - left, d.dr()),
            (seeker.0 & edge.0 == 0) == on_board(
                at.file_index() + d.df(),
                at.rank_index() + d.dr(),
            ),
            bb_mask.0 | ray_inner(at.file_index(), at.rank_index(), d.df(), d.dr(), left)
                == ray_inner_of(square.0 as int, d),
        decreases left,
    {
        let ghost next = Square((at.0 + d.dr() * 8 + d.df()) as u8);
        proof {
            lemma_step(d, at);
            assert(seeker.0 & edge.0 == 0);
            assert(on_board(at.file_index() + d.df(), at.rank_index() + d.dr()));
            assert(0 <= square.file_index() < 8 && 0 <= square.rank_index() < 8);
            assert(d.df() != 0 || d.dr() != 0);
            assert(left > 0);
            lemma_or_laws(
                bb_mask.0,
                seeker.0,
                ray_inner(
                    next.file_index(),
                    next.rank_index(),
                    d.df(),
                    d.dr(),
                    (left - 1) as nat,
                ),
            );
        }
        bb_mask = Bitboard(bb_mask.0 | seeker.0);
        seeker = d.step(seeker);
        proof {
            at = next;
            left = (left - 1) as nat;
            lemma_step(d, at);
        }
    }
    proof {
        lemma_or_laws(bb_mask.0, 0, 0);
    }
    bb_mask
}

/// The squares whose occupancy decides what a bishop on `square` attacks.
pub fn generate_bishop_mask(square: Square) -> (r: Bitboard)
    requires
        square.is_some(),
    ensures
        r.0 == bishop_mask(square.0 as int),
{
    let mut bb_mask = walk_inner(square, Direction::UpLeft);
    bb_mask = bb_mask.union(walk_inner(square, Direction::UpRight));
    bb_mask = bb_mask.union(walk_inner(square, Direction::DownLeft));
    bb_mask = bb_mask.union(walk_inner(square, Direction::DownRight));
    bb_mask.pop_sq(square);
    bb_mask
}

/// The squares whose occupancy decides what a rook on `square` attacks.
pub fn generate_rook_mask(square: Square) -> (r: Bitboard)
    requires
        square.is_some(),
    ensures
        r.0 == rook_mask(square.0 as int),
{
    let mut bb_mask = walk_inner(square, Direction::Up);
    bb_mask = bb_mask.union(walk_inner(square, Direction::Down));
    bb_mask = bb_mask.union(walk_inner(square, Direction::Left));
    bb_mask = bb_mask.union(walk_inner(square, Direction::Right));
    bb_mask.pop_sq(square);
    bb_mask
}

/// The squares a bishop on `square` attacks with the given blockers, found by walking its
/// four rays.
pub fn generate_bishop_moves_on_the_fly(square: Square, blockers: Bitboard) -> (r: Bitboard)
    requires
        square.is_some(),
    ensures
        r.0 == bishop_attacks(square.0 as int, blockers.0),
{
    let mut bb_mask = walk_ray(square, blockers, Direction::UpLeft);
    bb_mask = bb_mask.union(walk_ray(square, blockers, Direction::UpRight));
    bb_mask = bb_mask.union(walk_ray(square, blockers, Direction::DownLeft));
    bb_mask = bb_mask.union(walk_ray(square, blockers, Direction::DownRight));
    bb_mask
}

/// The squares a rook on `square` attacks with the given blockers, found by walking its four
/// rays.
pub fn generate_rook_moves_on_the_fly(square: Square, blockers: Bitboard) -> (r: Bitboard)
    requires
        square.is_some(),
    ensures
        r.0 == rook_attacks(square.0 as int, blockers.0),
{
    let mut bb_mask = walk_ray(square, blockers, Direction::Up);
    bb_mask = bb_mask.union(walk_ray(square, blockers, Direction::Down));
    bb_mask = bb_mask.union(walk_ray(square, blockers, Direction::Left));
    bb_mask = bb_mask.union(walk_ray(square, blockers, Direction::Right));
    bb_mask
}

/// The subset of `mask` that `occupancy_index` picks: the `i`-th lowest square of `mask` is
/// taken when bit `i` of the index is set, for the first `num_bits` squares.
#[verifier::rlimit(50)]
pub fn generate_occupancy_permutation(occupancy_index: u32, num_bits: u8, mask: Bitboard) -> (r:
    Bitboard)
    requires
        num_bits <= 32,
        num_bits <= popcount(mask.0),
    ensures
        r.0 == occupancy_permutation(occupancy_index, num_bits as nat, mask.0),
{
    let mut occupancy = Bitboard::empty();
    let mut mask = mask;
    let ghost start = mask.0;
    let mut i: u8 = 0;
    proof {
        lemma_or_laws(occupancy_permutation(occupancy_index, num_bits as nat, start), 0, 0);
        lemma_index_shift(occupancy_index, 0);
    }
    while i < num_bits
        invariant
            i <= num_bits <= 32,
            (num_bits - i) as nat <= popcount(mask.0),
            occupancy.0 | occupancy_permutation(
                shifted(occupancy_index, i as u32),
                (num_bits - i) as nat,
                mask.0,
            ) == occupancy_permutation(occupancy_index, num_bits as nat, start),
        decreases num_bits - i,
    {
        let ghost before = mask.0;
        let ghost rest = occupancy_permutation(
            shifted(occupancy_index, i as u32) >> 1,
            (num_bits - i - 1) as nat,
            drop_lowest(before),
        );
        proof {
            lemma_index_shift(occupancy_index, i as u32);
            lemma_or_laws(occupancy.0, single(lowest(before)), rest);
        }
        let square = mask.pop_lsb();
        if occupancy_index & (1u32 << (i as u32)) != 0 {
            occupancy.set_sq(square);
        }
        i = i + 1;
    }
    proof {
        lemma_or_laws(occupancy.0, 0, 0);
    }
    occupancy
}

/// `k` steps of `d`, where `d` is -1, 0 or 1.
pub open spec fn times(k: int, d: int) -> int {
    if d == 0 {
        0
    } else if d > 0 {
        k
    } else {
        -k
    }
}

/// `index` without its lowest `n` bits.
pub open spec fn shifted(index: u32, n: u32) -> u32 {
    index >> n
}

proof fn lemma_index_shift(index: u32, n: u32)
    by (bit_vector)
    requires
        n < 32,
    ensures
        index >> 0 == index,
        ((index >> n) & 1 != 0) == (index & (1u32 << n) != 0),
        n < 31 ==> (index >> n) >> 1 == index >> ((n + 1) as u32),
        n == 31 ==> (index >> n) >> 1 == 0,
{
}

/// The index that picks the subset `sub` of `mask`: bit `i` of it says whether the `i`-th
/// lowest square of `mask` is in `sub`.
pub open spec fn pick_index(sub: u64, num_bits: nat, mask: u64) -> u32
    decreases num_bits,
{
    if num_bits == 0 {
        0
    } else {
        let rest = pick_index(
            sub & !single(lowest(mask)),
            (num_bits - 1) as nat,
            drop_lowest(mask),
        );
        if bit_at(sub, lowest(mask)) {
            (2 * rest + 1) as u32
        } else {
            (2 * rest) as u32
        }
    }
}

proof fn lemma_pick_bits(sub: u64, mask: u64, t: u64)
    by (bit_vector)
    requires
        t < 64,
        sub & !mask == 0,
    ensures
        (sub & !(1u64 << t)) & !(mask & !(1u64 << t)) == 0,
        (sub >> t) & 1 == 1 ==> (1u64 << t) | (sub & !(1u64 << t)) == sub,
        (sub >> t) & 1 != 1 ==> sub & !(1u64 << t) == sub,
        mask == 0 ==> sub == 0,
{
}

proof fn lemma_pick_index_bits(rest: u32, n: u32)
    by (bit_vector)
    requires
        1 <= n <= 31,
    ensures
        rest < (1u32 << ((n - 1) as u32)) ==> 2 * rest + 1 < (1u32 << n) && ((2 * rest
            + 1) as u32) >> 1 == rest && ((2 * rest + 1) as u32) & 1 != 0 && ((2 * rest) as u32)
            >> 1 == rest && ((2 * rest) as u32) & 1 == 0,
        (1u32 << 0) == 1,
{
}

/// Every subset of a mask of `num_bits` squares is picked by an index below `2^num_bits`.
pub proof fn lemma_pick_index(sub: u64, num_bits: nat, mask: u64)
    requires
        num_bits <= 31,
        popcount(mask) == num_bits,
        sub & !mask == 0,
    ensures
        pick_index(sub, num_bits, mask) < (1u32 << (num_bits as u32)),
        occupancy_permutation(pick_index(sub, num_bits, mask), num_bits, mask) == sub,
    decreases num_bits,
{
    if num_bits == 0 {
        lemma_pick_bits(sub, mask, 0);
        lemma_pick_index_bits(0, 1);
    } else {
        let t = lowest(mask);
        lemma_lowest(mask);
        lemma_drop_lowest(mask);
        lemma_pick_bits(sub, mask, t);
        let sub1 = sub & !single(t);
        let mask1 = drop_lowest(mask);
        lemma_pick_index(sub1, (num_bits - 1) as nat, mask1);
        lemma_pick_index_bits(pick_index(sub1, (num_bits - 1) as nat, mask1), num_bits as u32);
    }
}

proof fn lemma_same_blockers(a: u64, b: u64, here: u64, beyond: u64)
    by (bit_vector)
    requires
        (a ^ b) & (here | beyond) == 0,
    ensures
        (here & a != 0) == (here & b != 0),
        (a ^ b) & beyond == 0,
{
}

/// Two sets of blockers that agree on the inner squares of a walk give the same ray.
pub proof fn lemma_ray_depends_on_inner(
    f: int,
    r: int,
    df: int,
    dr: int,
    a: u64,
    b: u64,
    steps: nat,
)
    requires
        (a ^ b) & ray_inner(f, r, df, dr, steps) == 0,
    ensures
        ray(f, r, df, dr, a, steps) == ray(f, r, df, dr, b, steps),
    decreases steps,
{
    if steps == 0 || !on_board(f + df, r + dr) {
    } else {
        lemma_same_blockers(
            a,
            b,
            square_bit(f, r),
            ray_inner(f + df, r + dr, df, dr, (steps - 1) as nat),
        );
        lemma_ray_depends_on_inner(f + df, r + dr, df, dr, a, b, (steps - 1) as nat);
    }
}

proof fn lemma_mask_agrees(occ: u64, s: u64, r1: u64, r2: u64, r3: u64, r4: u64)
    by (bit_vector)
    ensures
        ((occ & !s) ^ (occ & ((r1 | r2 | r3 | r4) & !s))) & r1 == 0,
        ((occ & !s) ^ (occ & ((r1 | r2 | r3 | r4) & !s))) & r2 == 0,
        ((occ & !s) ^ (occ & ((r1 | r2 | r3 | r4) & !s))) & r3 == 0,
        ((occ & !s) ^ (occ & ((r1 | r2 | r3 | r4) & !s))) & r4 == 0,
        (occ & ((r1 | r2 | r3 | r4) & !s)) & !((r1 | r2 | r3 | r4) & !s) == 0,
{
}

/// What a bishop attacks is decided by the occupancy of its mask alone: the other squares,
/// its own apart, may be taken as empty.
pub proof fn lemma_bishop_mask_decides(sq: int, occ: u64)
    requires
        0 <= sq < 64,
    ensures
        bishop_attacks(sq, occ & bishop_mask(sq)) == bishop_attacks(sq, occ & !single(sq as u64)),
        (occ & bishop_mask(sq)) & !bishop_mask(sq) == 0,
{
    let a = occ & !single(sq as u64);
    let b = occ & bishop_mask(sq);
    lemma_mask_agrees(
        occ,
        single(sq as u64),
        ray_inner_of(sq, Direction::UpLeft),
        ray_inner_of(sq, Direction::UpRight),
        ray_inner_of(sq, Direction::DownLeft),
        ray_inner_of(sq, Direction::DownRight),
    );
    lemma_ray_depends_on_inner(sq % 8, sq / 8, -1, -1, a, b, 7);
    lemma_ray_depends_on_inner(sq % 8, sq / 8, 1, -1, a, b, 7);
    lemma_ray_depends_on_inner(sq % 8, sq / 8, -1, 1, a, b, 7);
    lemma_ray_depends_on_inner(sq % 8, sq / 8, 1, 1, a, b, 7);
}

/// What a rook attacks is decided by the occupancy of its mask alone: the other squares, its
/// own apart, may be taken as empty.
pub proof fn lemma_rook_mask_decides(sq: int, occ: u64)
    requires
        0 <= sq < 64,
    ensures
        rook_attacks(sq, occ & rook_mask(sq)) == rook_attacks(sq, occ & !single(sq as u64)),
        (occ & rook_mask(sq)) & !rook_mask(sq) == 0,
{
    let a = occ & !single(sq as u64);
    let b = occ & rook_mask(sq);
    lemma_mask_agrees(
        occ,
        single(sq as u64),
        ray_inner_of(sq, Direction::Up),
        ray_inner_of(sq, Direction::Down),
        ray_inner_of(sq, Direction::Left),
        ray_inner_of(sq, Direction::Right),
    );
    lemma_ray_depends_on_inner(sq % 8, sq / 8, 0, -1, a, b, 7);
    lemma_ray_depends_on_inner(sq % 8, sq / 8, 0, 1, a, b, 7);
    lemma_ray_depends_on_inner(sq % 8, sq / 8, -1, 0, a, b, 7);
    lemma_ray_depends_on_inner(sq % 8, sq / 8, 1, 0, a, b, 7);
}

/// What a rook, or else a bishop, attacks from `sq` with the given blockers.
pub open spec fn slider_attacks(rook: bool, sq: int, blockers: u64) -> u64 {
    if rook {
        rook_attacks(sq, blockers)
    } else {
        bishop_attacks(sq, blockers)
    }
}

/// The table index that the `k`-th subset of `mask` leads to.
pub open spec fn slot(k: u32, bits: u8, mask: u64, magic: u64) -> int {
    magic_index(occupancy_permutation(k, bits as nat, mask), magic, bits)
}

/// What the slider attacks from `sq` when the `k`-th subset of `mask` is the blockers.
pub open spec fn slot_attacks(rook: bool, sq: int, k: u32, bits: u8, mask: u64) -> u64 {
    slider_attacks(rook, sq, occupancy_permutation(k, bits as nat, mask))
}

/// Some subset of `mask` before the `k`-th leads to table index `i`.
pub open spec fn reached(i: int, k: u32, bits: u8, mask: u64, magic: u64) -> bool {
    exists|j: u32| j < k && #[trigger] slot(j, bits, mask, magic) == i
}

/// Two subsets of `mask` lead to the same table index though the slider attacks different
/// squares under them: the multiplier does not serve this square.
pub open spec fn collides(rook: bool, sq: int, bits: u8, mask: u64, magic: u64) -> bool {
    exists|k1: u32, k2: u32|
        k1 < (1u32 << (bits as u32)) && k2 < (1u32 << (bits as u32)) && #[trigger] slot(
            k1,
            bits,
            mask,
            magic,
        ) == #[trigger] slot(k2, bits, mask, magic) && slot_attacks(rook, sq, k1, bits, mask)
            != slot_attacks(rook, sq, k2, bits, mask)
}

/// The multipliers and bit counts serve square `sq`: the counts are the sizes of the masks,
/// and no two subsets of a mask with different attacks share a table index.
pub open spec fn square_magics_valid(sq: int) -> bool {
    &&& popcount(bishop_mask(sq)) == BISHOP_RELEVANT_BITS[sq]
    &&& popcount(rook_mask(sq)) == ROOK_RELEVANT_BITS[sq]
    &&& !collides(
        false,
        sq,
        BISHOP_RELEVANT_BITS[sq],
        bishop_mask(sq),
        BISHOP_MAGIC_BITBOARDS[sq],
    )
    &&& !collides(true, sq, ROOK_RELEVANT_BITS[sq], rook_mask(sq), ROOK_MAGIC_BITBOARDS[sq])
}

/// The multipliers and bit counts serve every square.
pub open spec fn magics_valid() -> bool {
    forall|sq: int| 0 <= sq < 64 ==> #[trigger] square_magics_valid(sq)
}

proof fn lemma_count_bits(bits: u32)
    by (bit_vector)
    requires
        1 <= bits <= 12,
    ensures
        (1u32 << bits) <= 4096,
        (1u32 << bits) == (1u64 << (bits as u64)),
{
}

/// A table that holds the attacks of every subset of the mask at the subset's index gives,
/// under any occupancy, the attacks with the occupied squares other than `sq` as blockers.
proof fn lemma_table_serves(
    rook: bool,
    sq: int,
    table: Seq<Bitboard>,
    bits: u8,
    mask: u64,
    magic: u64,
)
    requires
        0 <= sq < 64,
        1 <= bits <= 12,
        popcount(mask) == bits,
        mask == (if rook {
            rook_mask(sq)
        } else {
            bishop_mask(sq)
        }),
        forall|k: u32|
            k < (1u32 << (bits as u32)) ==> 0 <= #[trigger] slot(k, bits, mask, magic)
                < table.len() && table[slot(k, bits, mask, magic)].0 == slot_attacks(
                rook,
                sq,
                k,
                bits,
                mask,
            ),
    ensures
        forall|occ: u64|
            table[#[trigger] magic_index(occ & mask, magic, bits)].0 == slider_attacks(
                rook,
                sq,
                occ & !single(sq as u64),
            ),
{
    assert forall|occ: u64|
        table[#[trigger] magic_index(occ & mask, magic, bits)].0 == slider_attacks(
            rook,
            sq,
            occ & !single(sq as u64),
        ) by {
        let sub = occ & mask;
        if rook {
            lemma_rook_mask_decides(sq, occ);
        } else {
            lemma_bishop_mask_decides(sq, occ);
        }
        lemma_pick_index(sub, bits as nat, mask);
        let k = pick_index(sub, bits as nat, mask);
        assert(slot(k, bits, mask, magic) == magic_index(sub, magic, bits));
    }
}

/// Fills the table of one slider on one square: for every subset of `mask`, the attacks under
/// it go to the subset's index. Gives nothing when two subsets with different attacks meet at
/// one index.
#[verifier::rlimit(50)]
fn fill_slider_table(
    square: Square,
    rook: bool,
    mask: Bitboard,
    num_bits: u8,
    magic: u64,
    size: usize,
) -> (r: Option<Vec<Bitboard>>)
    requires
        square.is_some(),
        1 <= num_bits <= 12,
        popcount(mask.0) == num_bits,
        (1u64 << (num_bits as u64)) <= size <= 4096,
    ensures
        r is None <==> collides(rook, square.0 as int, num_bits, mask.0, magic),
        r matches Some(t) ==> t.len() == size && forall|k: u32|
            k < (1u32 << (num_bits as u32)) ==> 0 <= #[trigger] slot(k, num_bits, mask.0, magic)
                < size && t[slot(k, num_bits, mask.0, magic)].0 == slot_attacks(
                rook,
                square.0 as int,
                k,
                num_bits,
                mask.0,
            ),
{
    let mut table: Vec<Bitboard> = Vec::new();
    let mut filled: Vec<bool> = Vec::new();
    let mut n: usize = 0;
    while n < size
        invariant
            n <= size,
            table.len() == n,
            filled.len() == n,
            forall|i: int| 0 <= i < n ==> !filled[i],
        decreases size - n,
    {
        table.push(Bitboard::empty());
        filled.push(false);
        n = n + 1;
    }
    proof {
        lemma_count_bits(num_bits as u32);
    }
    let count: u32 = 1u32 << (num_bits as u32);
    let mut k: u32 = 0;
    while k < count
        invariant
            square.is_some(),
            1 <= num_bits <= 12,
            popcount(mask.0) == num_bits,
            count == (1u32 << (num_bits as u32)),
            count == (1u64 << (num_bits as u64)),
            count <= size <= 4096,
            k <= count,
            table.len() == size,
            filled.len() == size,
            forall|j: u32|
                j < k ==> 0 <= #[trigger] slot(j, num_bits, mask.0, magic) < size && filled[slot(
                    j,
                    num_bits,
                    mask.0,
                    magic,
                )] && table[slot(j, num_bits, mask.0, magic)].0 == slot_attacks(
                    rook,
                    square.0 as int,
                    j,
                    num_bits,
                    mask.0,
                ),
            forall|i: int|
                0 <= i < size && #[trigger] filled[i] ==> reached(i, k, num_bits, mask.0, magic),
        decreases count - k,
    {
        let occupancy = generate_occupancy_permutation(k, num_bits, mask);
        let index = compute_magic_index(occupancy.0, magic, num_bits);
        let attacks = if rook {
            generate_rook_moves_on_the_fly(square, occupancy)
        } else {
            generate_bishop_moves_on_the_fly(square, occupancy)
        };
        assert(index == slot(k, num_bits, mask.0, magic));
        assert(attacks.0 == slot_attacks(rook, square.0 as int, k, num_bits, mask.0));
        if filled[index] {
            if table[index].0 != attacks.0 {
                proof {
                    assert(reached(index as int, k, num_bits, mask.0, magic));
                    let j = choose|j: u32|
                        j < k && #[trigger] slot(j, num_bits, mask.0, magic) == index;
                    assert(slot(j, num_bits, mask.0, magic) == slot(k, num_bits, mask.0, magic));
                }
                return None;
            }
        } else {
            table.set(index, attacks);
            filled.set(index, true);
        }
        proof {
            assert forall|i: int| 0 <= i < size && #[trigger] filled[i] implies reached(
                i,
                (k + 1) as u32,
                num_bits,
                mask.0,
                magic,
            ) by {
                if i == index {
                    assert(slot(k, num_bits, mask.0, magic) == i);
                } else {
                    let j = choose|j: u32|
                        j < k && #[trigger] slot(j, num_bits, mask.0, magic) == i;
                    assert(slot(j, num_bits, mask.0, magic) == i);
                }
            }
        }
        k = k + 1;
    }
    Some(table)
}

/// The eight tables hold at `sq` what they should.
pub open spec fn masks_filled(
    sq: int,
    white_quiet: [Bitboard; 64],
    black_quiet: [Bitboard; 64],
    white_captures: [Bitboard; 64],
    black_captures: [Bitboard; 64],
    knight: [Bitboard; 64],
    king: [Bitboard; 64],
    bishop: [Bitboard; 64],
    rook: [Bitboard; 64],
) -> bool {
    &&& white_quiet[sq].0 == pawn_quiet_mask(Color::White, sq)
    &&& black_quiet[sq].0 == pawn_quiet_mask(Color::Black, sq)
    &&& white_captures[sq].0 == pawn_capture_mask(Color::White, sq)
    &&& black_captures[sq].0 == pawn_capture_mask(Color::Black, sq)
    &&& knight[sq].0 == knight_mask(sq)
    &&& king[sq].0 == king_mask(sq)
    &&& bishop[sq].0 == bishop_mask(sq)
    &&& rook[sq].0 == rook_mask(sq)
}

/// Computes the tables of the pawns, the knight and the king, and the sliders' masks. The
/// sliders' tables are left empty.
#[verifier::rlimit(50)]
pub fn init_masks() -> (r: MoveMasks)
    ensures
        forall|sq: int| 0 <= sq < 64 ==> #[trigger] r.masks_ok(sq),
        r.bishop_move_configurations.len() == 0,
        r.rook_move_configurations.len() == 0,
{
    let mut white_quiet = [Bitboard(0);64];
    let mut black_quiet = [Bitboard(0);64];
    let mut white_captures = [Bitboard(0);64];
    let mut black_captures = [Bitboard(0);64];
    let mut knight = [Bitboard(0);64];
    let mut king = [Bitboard(0);64];
    let mut bishop = [Bitboard(0);64];
    let mut rook = [Bitboard(0);64];
    let mut index: u8 = 0;
    while index < 64
        invariant
            index <= 64,
            forall|sq: int|
                0 <= sq < index ==> #[trigger] masks_filled(
                    sq,
                    white_quiet,
                    black_quiet,
                    white_captures,
                    black_captures,
                    knight,
                    king,
                    bishop,
                    rook,
                ),
        decreases 64 - index,
    {
        let square = Square::from(index);
        let i = square.index();
        let ghost old_white_quiet = white_quiet;
        let ghost old_black_quiet = black_quiet;
        let ghost old_white_captures = white_captures;
        let ghost old_black_captures = black_captures;
        let ghost old_knight = knight;
        let ghost old_king = king;
        let ghost old_bishop = bishop;
        let ghost old_rook = rook;
        white_quiet[i] = generate_pawn_quiet_mask(Color::White, square);
        black_quiet[i] = generate_pawn_quiet_mask(Color::Black, square);
        white_captures[i] = generate_pawn_capture_mask(Color::White, square);
        black_captures[i] = generate_pawn_capture_mask(Color::Black, square);
        knight[i] = generate_knight_mask(square);
        king[i] = generate_king_mask(square);
        bishop[i] = generate_bishop_mask(square);
        rook[i] = generate_rook_mask(square);
        proof {
            assert forall|sq: int| 0 <= sq < index + 1 implies #[trigger] masks_filled(
                sq,
                white_quiet,
                black_quiet,
                white_captures,
                black_captures,
                knight,
                king,
                bishop,
                rook,
            ) by {
                if sq < index {
                    assert(masks_filled(
                        sq,
                        old_white_quiet,
                        old_black_quiet,
                        old_white_captures,
                        old_black_captures,
                        old_knight,
                        old_king,
                        old_bishop,
                        old_rook,
                    ));
                }
            }
        }
        index = index + 1;
    }
    let r = MoveMasks {
        pawn_quiet_masks: [white_quiet, black_quiet],
        pawn_capture_masks: [white_captures, black_captures],
        knight_masks: knight,
        king_masks: king,
        bishop_masks: bishop,
        rook_masks: rook,
        bishop_move_configurations: Vec::new(),
        rook_move_configurations: Vec::new(),
    };
    assert forall|sq: int| 0 <= sq < 64 implies #[trigger] r.masks_ok(sq) by {
        assert(masks_filled(
            sq,
            white_quiet,
            black_quiet,
            white_captures,
            black_captures,
            knight,
            king,
            bishop,
            rook,
        ));
    }
    r
}

/// Fills the sliders' tables of `tables`, whose masks are in place. Gives nothing when a bit
/// count is not the size of its mask or a multiplier does not serve its square.
#[verifier::rlimit(50)]
pub fn init_slider_configurations(tables: MoveMasks) -> (r: Option<MoveMasks>)
    requires
        forall|sq: int| 0 <= sq < 64 ==> #[trigger] tables.masks_ok(sq),
        tables.bishop_move_configurations.len() == 0,
        tables.rook_move_configurations.len() == 0,
    ensures
        r is Some <==> magics_valid(),
        r matches Some(t) ==> t.wf(),
{
    let mut tables = tables;
    let mut index: u8 = 0;
    while index < 64
        invariant
            index <= 64,
            forall|sq: int| 0 <= sq < 64 ==> #[trigger] tables.masks_ok(sq),
            tables.bishop_move_configurations.len() == index,
            tables.rook_move_configurations.len() == index,
            forall|sq: int| 0 <= sq < index ==> #[trigger] tables.sliders_ok(sq),
            forall|sq: int| 0 <= sq < index ==> #[trigger] square_magics_valid(sq),
        decreases 64 - index,
    {
        let square = Square::from(index);
        let i = square.index();
        let ghost sq = index as int;
        let bishop_mask = tables.bishop_masks[i];
        let rook_mask = tables.rook_masks[i];
        let num_bishop_relevant_bits = BISHOP_RELEVANT_BITS[i];
        let num_rook_relevant_bits = ROOK_RELEVANT_BITS[i];
        proof {
            assert(tables.masks_ok(sq));
            lemma_relevant_bits(sq);
            lemma_table_sizes();
        }
        if bishop_mask.count_bits() != num_bishop_relevant_bits || rook_mask.count_bits()
            != num_rook_relevant_bits {
            assert(!square_magics_valid(sq));
            return None;
        }
        let bishop_table = match fill_slider_table(
            square,
            false,
            bishop_mask,
            num_bishop_relevant_bits,
            BISHOP_MAGIC_BITBOARDS[i],
            BISHOP_TABLE_SIZE,
        ) {
            Some(table) => table,
            None => {
                assert(!square_magics_valid(sq));
                return None;
            },
        };
        let rook_table = match fill_slider_table(
            square,
            true,
            rook_mask,
            num_rook_relevant_bits,
            ROOK_MAGIC_BITBOARDS[i],
            ROOK_TABLE_SIZE,
        ) {
            Some(table) => table,
            None => {
                assert(!square_magics_valid(sq));
                return None;
            },
        };
        proof {
            lemma_table_serves(
                false,
                sq,
                bishop_table@,
                num_bishop_relevant_bits,
                bishop_mask.0,
                BISHOP_MAGIC_BITBOARDS[sq],
            );
            lemma_table_serves(
                true,
                sq,
                rook_table@,
                num_rook_relevant_bits,
                rook_mask.0,
                ROOK_MAGIC_BITBOARDS[sq],
            );
        }
        let ghost before = tables;
        tables.bishop_move_configurations.push(bishop_table);
        tables.rook_move_configurations.push(rook_table);
        proof {
            assert forall|other: int| 0 <= other < 64 implies #[trigger] tables.masks_ok(
                other,
            ) by {
                assert(before.masks_ok(other));
            }
            assert forall|other: int| 0 <= other < index + 1 implies #[trigger] tables.sliders_ok(
                other,
            ) by {
                if other < index {
                    assert(before.sliders_ok(other));
                    assert forall|occ: u64| #[trigger]
                        tables.bishop_entry(other, occ) == before.bishop_entry(other, occ) by {}
                    assert forall|occ: u64| #[trigger]
                        tables.rook_entry(other, occ) == before.rook_entry(other, occ) by {}
                } else {
                    assert forall|occ: u64| #[trigger]
                        tables.bishop_entry(sq, occ).0 == bishop_attacks(
                            sq,
                            occ & !single(sq as u64),
                        ) by {
                        assert(bishop_table@[magic_index(
                            occ & bishop_mask.0,
                            BISHOP_MAGIC_BITBOARDS[sq],
                            num_bishop_relevant_bits,
                        )].0 == slider_attacks(false, sq, occ & !single(sq as u64)));
                    }
                    assert forall|occ: u64| #[trigger]
                        tables.rook_entry(sq, occ).0 == rook_attacks(
                            sq,
                            occ & !single(sq as u64),
                        ) by {
                        assert(rook_table@[magic_index(
                            occ & rook_mask.0,
                            ROOK_MAGIC_BITBOARDS[sq],
                            num_rook_relevant_bits,
                        )].0 == slider_attacks(true, sq, occ & !single(sq as u64)));
                    }
                }
            }
        }
        index = index + 1;
    }
    Some(tables)
}

proof fn lemma_table_sizes()
    by (bit_vector)
    ensures
        (1u64 << 5) <= 512 && (1u64 << 6) <= 512 && (1u64 << 7) <= 512 && (1u64 << 8) <= 512 && (
        1u64 << 9) <= 512,
        (1u64 << 10) <= 4096 && (1u64 << 11) <= 4096 && (1u64 << 12) <= 4096,
{
}

/// Builds the attack tables. The tables come out exactly when the built-in multipliers and
/// bit counts serve every square, and then every lookup is right.
pub fn init() -> (r: Option<MoveMasks>)
    ensures
        r is Some <==> magics_valid(),
        r matches Some(t) ==> t.wf(),
{
    let tables = init_masks();
    init_slider_configurations(tables)
}

} // verus!
