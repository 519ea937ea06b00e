use vstd::prelude::*;
use crate::bitboard::Bitboard;
use crate::bits::single;
use crate::color::Color;
use crate::magic_bitboards::{BISHOP_MAGIC_BITBOARDS, BISHOP_RELEVANT_BITS, ROOK_MAGIC_BITBOARDS, ROOK_RELEVANT_BITS};
use crate::move_init::{bishop_attacks, bishop_mask, king_mask, knight_mask, pawn_capture_mask, pawn_quiet_mask, rook_attacks, rook_mask};
use crate::square::Square;

verus! {

/// The attack tables: for every square what each piece attacks from it, the sliders'
/// by a lookup under the occupancy of their masks.
pub struct MoveMasks {
    pub pawn_quiet_masks: [[Bitboard; 64]; 2],
    pub pawn_capture_masks: [[Bitboard; 64]; 2],
    pub knight_masks: [Bitboard; 64],
    pub king_masks: [Bitboard; 64],
    pub bishop_masks: [Bitboard; 64],
    pub rook_masks: [Bitboard; 64],
    pub bishop_move_configurations: Vec<Vec<Bitboard>>,
    pub rook_move_configurations: Vec<Vec<Bitboard>>,
}

/// The number of entries in a bishop's table.
pub const BISHOP_TABLE_SIZE: usize = 512;

/// The number of entries in a rook's table.
pub const ROOK_TABLE_SIZE: usize = 4096;

/// The table index of the blockers `occupancy`: the top `bits` bits of the product with
/// `magic`, taken modulo 2^64.
pub open spec fn magic_index(occupancy: u64, magic: u64, bits: u8) -> int {
    (occupancy.wrapping_mul(magic) >> ((64 - bits) as u64)) as int
}

proof fn lemma_index_bound(x: u64, bits: u64)
    by (bit_vector)
    requires
        1 <= bits <= 12,
    ensures
        x >> ((64 - bits) as u64) < (1u64 << bits),
        (1u64 << bits) <= 4096,
        bits <= 9 ==> (1u64 << bits) <= 512,
{
}

/// The relevant-bit counts lie between 5 and 9 for a bishop, between 10 and 12 for a rook.
pub proof fn lemma_relevant_bits(sq: int)
    requires
        0 <= sq < 64,
    ensures
        5 <= BISHOP_RELEVANT_BITS[sq] <= 9,
        10 <= ROOK_RELEVANT_BITS[sq] <= 12,
{
}

/// A magic index is below two to the number of bits, so it lies in the table.
pub proof fn lemma_magic_index_bound(occupancy: u64, magic: u64, bits: u8)
    requires
        1 <= bits <= 12,
    ensures
        0 <= magic_index(occupancy, magic, bits) < (1u64 << (bits as u64)) <= ROOK_TABLE_SIZE,
        bits <= 9 ==> (1u64 << (bits as u64)) <= BISHOP_TABLE_SIZE,
{
    lemma_index_bound(occupancy.wrapping_mul(magic), bits as u64);
}

/// Computes the table index of the blockers `occupancy`.
pub fn compute_magic_index(occupancy: u64, magic: u64, bits: u8) -> (r: usize)
    requires
        1 <= bits <= 12,
    ensures
        r == magic_index(occupancy, magic, bits),
        r < (1u64 << (bits as u64)),
        r < ROOK_TABLE_SIZE,
        bits <= 9 ==> r < BISHOP_TABLE_SIZE,
{
    proof {
        lemma_magic_index_bound(occupancy, magic, bits);
    }
    (occupancy.wrapping_mul(magic) >> ((64 - bits) as u64)) as usize
}

impl MoveMasks {
    /// The tables of the leapers and the sliders' masks hold what they should for `sq`.
    pub open spec fn masks_ok(&self, sq: int) -> bool {
        &&& self.pawn_quiet_masks[0][sq].0 == pawn_quiet_mask(Color::White, sq)
        &&& self.pawn_quiet_masks[1][sq].0 == pawn_quiet_mask(Color::Black, sq)
        &&& self.pawn_capture_masks[0][sq].0 == pawn_capture_mask(Color::White, sq)
        &&& self.pawn_capture_masks[1][sq].0 == pawn_capture_mask(Color::Black, sq)
        &&& self.knight_masks[sq].0 == knight_mask(sq)
        &&& self.king_masks[sq].0 == king_mask(sq)
        &&& self.bishop_masks[sq].0 == bishop_mask(sq)
        &&& self.rook_masks[sq].0 == rook_mask(sq)
    }

    /// The entry of the bishop's table for `sq` that the occupancy `occ` leads to.
    pub open spec fn bishop_entry(&self, sq: int, occ: u64) -> Bitboard {
        self.bishop_move_configurations[sq][magic_index(
            occ & bishop_mask(sq),
            BISHOP_MAGIC_BITBOARDS[sq],
            BISHOP_RELEVANT_BITS[sq],
        )]
    }

    /// The entry of the rook's table for `sq` that the occupancy `occ` leads to.
    pub open spec fn rook_entry(&self, sq: int, occ: u64) -> Bitboard {
        self.rook_move_configurations[sq][magic_index(
            occ & rook_mask(sq),
            ROOK_MAGIC_BITBOARDS[sq],
            ROOK_RELEVANT_BITS[sq],
        )]
    }

    /// The sliders' tables for `sq` have their full size, and under every occupancy the lookup
    /// gives what the slider attacks with the occupied squares other than `sq` as blockers.
    pub open spec fn sliders_ok(&self, sq: int) -> bool {
        &&& self.bishop_move_configurations[sq].len() == BISHOP_TABLE_SIZE
        &&& self.rook_move_configurations[sq].len() == ROOK_TABLE_SIZE
        &&& forall|occ: u64| #[trigger]
            self.bishop_entry(sq, occ).0 == bishop_attacks(sq, occ & !single(sq as u64))
        &&& forall|occ: u64| #[trigger]
            self.rook_entry(sq, occ).0 == rook_attacks(sq, occ & !single(sq as u64))
    }

    /// Every table holds what it should, for every square.
    pub open spec fn wf(&self) -> bool {
        &&& self.bishop_move_configurations.len() == 64
        &&& self.rook_move_configurations.len() == 64
        &&& forall|sq: int| 0 <= sq < 64 ==> #[trigger] self.masks_ok(sq)
        &&& forall|sq: int| 0 <= sq < 64 ==> #[trigger] self.sliders_ok(sq)
    }
}

/// The squares a pawn of `color` on `square` may push to on an empty board.
pub fn get_pawn_quiet_mask(tables: &MoveMasks, color: Color, square: Square) -> (r: Bitboard)
    requires
        tables.wf(),
        square.is_some(),
    ensures
        r.0 == pawn_quiet_mask(color, square.0 as int),
{
    assert(tables.masks_ok(square.0 as int));
    tables.pawn_quiet_masks[color.index()][square.index()]
}

/// The squares a pawn of `color` on `square` attacks.
pub fn get_pawn_capture_mask(tables: &MoveMasks, color: Color, square: Square) -> (r: Bitboard)
    requires
        tables.wf(),
        square.is_some(),
    ensures
        r.0 == pawn_capture_mask(color, square.0 as int),
{
    assert(tables.masks_ok(square.0 as int));
    tables.pawn_capture_masks[color.index()][square.index()]
}

/// The squares a knight on `square` attacks.
pub fn get_knight_mask(tables: &MoveMasks, square: Square) -> (r: Bitboard)
    requires
        tables.wf(),
        square.is_some(),
    ensures
        r.0 == knight_mask(square.0 as int),
{
    assert(tables.masks_ok(square.0 as int));
    tables.knight_masks[square.index()]
}

/// The squares a king on `square` attacks.
pub fn get_king_mask(tables: &MoveMasks, square: Square) -> (r: Bitboard)
    requires
        tables.wf(),
        square.is_some(),
    ensures
        r.0 == king_mask(square.0 as int),
{
    assert(tables.masks_ok(square.0 as int));
    tables.king_masks[square.index()]
}

/// The squares a bishop on `square` attacks when the squares of `occupancy` are occupied. The
/// occupancy of `square` itself does not count.
pub fn get_bishop_mask(tables: &MoveMasks, square: Square, occupancy: Bitboard) -> (r: Bitboard)
    requires
        tables.wf(),
        square.is_some(),
    ensures
        r.0 == bishop_attacks(square.0 as int, occupancy.0 & !single(square.0 as u64)),
{
    let sq = square.index();
    proof {
        assert(tables.masks_ok(sq as int));
        assert(tables.sliders_ok(sq as int));
        lemma_relevant_bits(sq as int);
        assert(tables.bishop_entry(sq as int, occupancy.0).0 == bishop_attacks(
            sq as int,
            occupancy.0 & !single(sq as u64),
        ));
    }
    let blockers: u64 = occupancy.0 & tables.bishop_masks[sq].0;
    let index = compute_magic_index(blockers, BISHOP_MAGIC_BITBOARDS[sq], BISHOP_RELEVANT_BITS[sq]);
    tables.bishop_move_configurations[sq][index]
}

/// The squares a rook on `square` attacks when the squares of `occupancy` are occupied. The
/// occupancy of `square` itself does not count.
pub fn get_rook_mask(tables: &MoveMasks, square: Square, occupancy: Bitboard) -> (r: Bitboard)
    requires
        tables.wf(),
        square.is_some(),
    ensures
        r.0 == rook_attacks(square.0 as int, occupancy.0 & !single(square.0 as u64)),
{
    let sq = square.index();
    proof {
        assert(tables.masks_ok(sq as int));
        assert(tables.sliders_ok(sq as int));
        lemma_relevant_bits(sq as int);
        assert(tables.rook_entry(sq as int, occupancy.0).0 == rook_attacks(
            sq as int,
            occupancy.0 & !single(sq as u64),
        ));
    }
    let blockers: u64 = occupancy.0 & tables.rook_masks[sq].0;
    let index = compute_magic_index(blockers, ROOK_MAGIC_BITBOARDS[sq], ROOK_RELEVANT_BITS[sq]);
    tables.rook_move_configurations[sq][index]
}

/// The squares a queen on `square` attacks: a bishop's and a rook's together.
pub open spec fn queen_attacks(sq: int, blockers: u64) -> u64 {
    bishop_attacks(sq, blockers) | rook_attacks(sq, blockers)
}

/// The squares a queen on `square` attacks when the squares of `occupancy` are occupied. The
/// occupancy of `square` itself does not count.
pub fn get_queen_mask(tables: &MoveMasks, square: Square, occupancy: Bitboard) -> (r: Bitboard)
    requires
        tables.wf(),
        square.is_some(),
    ensures
        r.0 == queen_attacks(square.0 as int, occupancy.0 & !single(square.0 as u64)),
{
    get_bishop_mask(tables, square, occupancy).union(get_rook_mask(tables, square, occupancy))
}

} // verus!
