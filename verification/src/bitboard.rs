use vstd::prelude::*;
use crate::bits::{bit_at, single, members, lowest, drop_lowest, popcount, group_bits, lemma_lowest, lemma_drop_lowest, lemma_zero_iff_no_bits, lemma_popcount_bound, lemma_popcount_is_size};
use crate::square::Square;

verus! {

/// A set of squares as a 64-bit word: bit `i` is set when square `i` is in the set.
#[derive(Clone, Copy, Debug, PartialEq, Eq, Structural)]
pub struct Bitboard(pub u64);

impl View for Bitboard {
    type V = Set<int>;

    /// The indices of the squares in the set.
    open spec fn view(&self) -> Set<int> {
        members(self.0)
    }
}

impl Bitboard {
    pub const EMPTY: u64 = 0;

    pub const WP: u64 = 0x00FF_0000_0000_0000;
    pub const WN: u64 = 0x4200_0000_0000_0000;
    pub const WB: u64 = 0x2400_0000_0000_0000;
    pub const WR: u64 = 0x8100_0000_0000_0000;
    pub const WQ: u64 = 0x0800_0000_0000_0000;
    pub const WK: u64 = 0x1000_0000_0000_0000;
    pub const BP: u64 = 0x0000_0000_0000_FF00;
    pub const BN: u64 = 0x0000_0000_0000_0042;
    pub const BB: u64 = 0x0000_0000_0000_0024;
    pub const BR: u64 = 0x0000_0000_0000_0081;
    pub const BQ: u64 = 0x0000_0000_0000_0008;
    pub const BK: u64 = 0x0000_0000_0000_0010;
    pub const WHITE_STARTING_PIECES: u64 = 0xFFFF_0000_0000_0000;
    pub const BLACK_STARTING_PIECES: u64 = 0x0000_0000_0000_FFFF;
    pub const ALL_STARTING_PIECES: u64 = 0xFFFF_0000_0000_FFFF;

    pub const FILE_A: u64 = 0x0101_0101_0101_0101;
    pub const FILE_B: u64 = 0x0202_0202_0202_0202;
    pub const FILE_C: u64 = 0x0404_0404_0404_0404;
    pub const FILE_D: u64 = 0x0808_0808_0808_0808;
    pub const FILE_E: u64 = 0x1010_1010_1010_1010;
    pub const FILE_F: u64 = 0x2020_2020_2020_2020;
    pub const FILE_G: u64 = 0x4040_4040_4040_4040;
    pub const FILE_H: u64 = 0x8080_8080_8080_8080;

    pub const RANK_8: u64 = 0x0000_0000_0000_00FF;
    pub const RANK_7: u64 = 0x0000_0000_0000_FF00;
    pub const RANK_6: u64 = 0x0000_0000_00FF_0000;
    pub const RANK_5: u64 = 0x0000_0000_FF00_0000;
    pub const RANK_4: u64 = 0x0000_00FF_0000_0000;
    pub const RANK_3: u64 = 0x0000_FF00_0000_0000;
    pub const RANK_2: u64 = 0x00FF_0000_0000_0000;
    pub const RANK_1: u64 = 0xFF00_0000_0000_0000;

    pub const W_KING_SIDE_MASK: u64 = 0x6000_0000_0000_0000;
    pub const W_QUEEN_SIDE_MASK: u64 = 0x0E00_0000_0000_0000;
    pub const B_KING_SIDE_MASK: u64 = 0x0000_0000_0000_0060;
    pub const B_QUEEN_SIDE_MASK: u64 = 0x0000_0000_0000_000E;

    /// Whether square `sq` is in the set.
    pub open spec fn has(self, sq: Square) -> bool {
        bit_at(self.0, sq.0 as u64)
    }

    /// The set with no square.
    pub fn empty() -> (r: Bitboard)
        ensures
            r.0 == 0,
            r@ == Set::<int>::empty(),
    {
        proof {
            broadcast use group_bits;
            assert(Bitboard(0)@ =~= Set::<int>::empty());
        }
        Bitboard(0)
    }

    /// The squares that are in either set.
    pub fn union(self, other: Bitboard) -> (r: Bitboard)
        ensures
            r.0 == self.0 | other.0,
            r@ == self@.union(other@),
    {
        let r = Bitboard(self.0 | other.0);
        proof {
            broadcast use group_bits;
            assert(r@ =~= self@.union(other@));
        }
        r
    }

    /// The squares that are in both sets.
    pub fn intersect(self, other: Bitboard) -> (r: Bitboard)
        ensures
            r.0 == self.0 & other.0,
            r@ == self@.intersect(other@),
    {
        let r = Bitboard(self.0 & other.0);
        proof {
            broadcast use group_bits;
            assert(r@ =~= self@.intersect(other@));
        }
        r
    }

    /// The squares of the board that are not in the set.
    pub fn complement(self) -> (r: Bitboard)
        ensures
            r.0 == !self.0,
            r@ == Set::new(|i: int| 0 <= i < 64 && !self@.contains(i)),
    {
        let r = Bitboard(!self.0);
        proof {
            broadcast use group_bits;
            assert(r@ =~= Set::new(|i: int| 0 <= i < 64 && !self@.contains(i)));
        }
        r
    }

    /// Whether the set has no square.
    pub fn is_empty(&self) -> (r: bool)
        ensures
            r == (self.0 == 0),
            r == (self@ == Set::<int>::empty()),
    {
        proof {
            lemma_zero_iff_no_bits(self.0);
            if self.0 == 0 {
                assert(self@ =~= Set::<int>::empty());
            } else {
                let i = choose|i: u64| i < 64 && bit_at(self.0, i);
                assert(self@.contains(i as int));
            }
        }
        self.0 == 0
    }

    /// Whether the set has a square.
    pub fn is_not_empty(&self) -> (r: bool)
        ensures
            r == (self.0 != 0),
            r == (self@ != Set::<int>::empty()),
    {
        !self.is_empty()
    }

    /// Whether square `sq` is in the set.
    pub fn is_set_sq(&self, sq: Square) -> (r: bool)
        requires
            sq.is_some(),
        ensures
            r == self.has(sq),
            r == self@.contains(sq.0 as int),
            r == (self.0 & single(sq.0 as u64) != 0),
    {
        let s: u64 = sq.0 as u64;
        let x: u64 = self.0;
        assert(((x >> s) & 1 == 1) == (x & (1u64 << s) != 0)) by (bit_vector)
            requires
                s < 64,
        ;
        (x >> s) & 1 == 1
    }

    /// Puts square `sq` into the set.
    pub fn set_sq(&mut self, sq: Square)
        requires
            sq.is_some(),
        ensures
            final(self).0 == old(self).0 | single(sq.0 as u64),
            final(self)@ == old(self)@.insert(sq.0 as int),
    {
        self.0 = self.0 | (1u64 << (sq.0 as u64));
        proof {
            broadcast use group_bits;
            assert(self.0 == old(self).0 | single(sq.0 as u64));
            assert(self@ =~= old(self)@.insert(sq.0 as int));
        }
    }

    /// Takes square `sq` out of the set.
    pub fn pop_sq(&mut self, sq: Square)
        requires
            sq.is_some(),
        ensures
            final(self).0 == old(self).0 & !single(sq.0 as u64),
            final(self)@ == old(self)@.remove(sq.0 as int),
    {
        self.0 = self.0 & !(1u64 << (sq.0 as u64));
        proof {
            broadcast use group_bits;
            assert(self.0 == old(self).0 & !single(sq.0 as u64));
            assert(self@ =~= old(self)@.remove(sq.0 as int));
        }
    }

    /// The lowest square of the set, or the sentinel when the set is empty.
    pub fn to_sq(&self) -> (r: Square)
        ensures
            r.0 == lowest(self.0),
            r.wf(),
            self.0 != 0 ==> r.is_some() && self.has(r) && forall|i: int|
                self@.contains(i) ==> r.0 <= i,
            self.0 == 0 ==> r.0 == Square::NONE,
    {
        proof {
            vstd::std_specs::bits::axiom_u64_trailing_zeros(self.0);
            if self.0 != 0 {
                lemma_lowest(self.0);
            }
        }
        Square(self.0.trailing_zeros() as u8)
    }

    /// Takes the lowest square out of the set and returns it.
    pub fn pop_lsb(&mut self) -> (r: Square)
        requires
            old(self).0 != 0,
        ensures
            r.is_some(),
            r.0 == lowest(old(self).0),
            old(self).has(r),
            forall|i: int| old(self)@.contains(i) ==> r.0 <= i,
            final(self).0 == drop_lowest(old(self).0),
            final(self).0 == old(self).0 & !single(r.0 as u64),
            final(self).0 < old(self).0,
            final(self)@ == old(self)@.remove(r.0 as int),
    {
        let sq = self.to_sq();
        proof {
            lemma_drop_lowest(self.0);
        }
        self.0 = self.0 & (self.0 - 1);
        proof {
            broadcast use group_bits;
            assert(self@ =~= old(self)@.remove(sq.0 as int));
        }
        sq
    }

    /// The number of squares in the set.
    pub fn count_bits(&self) -> (r: u8)
        ensures
            r == popcount(self.0),
            r == self@.len(),
            self@.finite(),
            r <= 64,
    {
        let mut rest: u64 = self.0;
        let mut n: u8 = 0;
        proof {
            lemma_popcount_bound(self.0);
            lemma_popcount_is_size(self.0);
        }
        while rest != 0
            invariant
                n as nat + popcount(rest) == popcount(self.0),
                n as nat + popcount(rest) <= 64,
            decreases rest,
        {
            proof {
                lemma_drop_lowest(rest);
            }
            rest = rest & (rest - 1);
            n = n + 1;
        }
        n
    }

    /// The set moved `n` squares towards the 8th rank; squares that leave index 0 are lost.
    pub fn shift_upwards(self, n: u8) -> (r: Bitboard)
        requires
            n < 64,
        ensures
            r.0 == self.0 >> (n as u64),
    {
        Bitboard(self.0 >> (n as u64))
    }

    /// The set moved `n` squares towards the 1st rank; squares that leave index 63 are lost.
    pub fn shift_downwards(self, n: u8) -> (r: Bitboard)
        requires
            n < 64,
        ensures
            r.0 == self.0 << (n as u64),
    {
        Bitboard(self.0 << (n as u64))
    }
}

} // verus!
