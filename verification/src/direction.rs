use vstd::prelude::*;
use crate::bitboard::Bitboard;
use crate::bits::single;
use crate::square::{on_board, square_at, square_bit, Square};

verus! {

/// One of the eight directions a sliding piece walks in, as seen on the printed board.
#[derive(Clone, Copy, Debug, PartialEq, Eq, Structural)]
pub enum Direction {
    UpLeft,
    Up,
    UpRight,
    Left,
    Right,
    DownLeft,
    Down,
    DownRight,
}

impl Direction {
    /// The change of file in one step.
    pub open spec fn df(self) -> int {
        match self {
            Direction::UpLeft | Direction::Left | Direction::DownLeft => -1,
            Direction::Up | Direction::Down => 0,
            Direction::UpRight | Direction::Right | Direction::DownRight => 1,
        }
    }

    /// The change of row in one step; rows count from the 8th rank down.
    pub open spec fn dr(self) -> int {
        match self {
            Direction::UpLeft | Direction::Up | Direction::UpRight => -1,
            Direction::Left | Direction::Right => 0,
            Direction::DownLeft | Direction::Down | Direction::DownRight => 1,
        }
    }

    /// The squares from which a step in this direction leaves the board.
    pub open spec fn spec_edge(self) -> u64 {
        match self {
            Direction::UpLeft => Bitboard::RANK_8 | Bitboard::FILE_A,
            Direction::Up => Bitboard::RANK_8,
            Direction::UpRight => Bitboard::RANK_8 | Bitboard::FILE_H,
            Direction::Left => Bitboard::FILE_A,
            Direction::Right => Bitboard::FILE_H,
            Direction::DownLeft => Bitboard::RANK_1 | Bitboard::FILE_A,
            Direction::Down => Bitboard::RANK_1,
            Direction::DownRight => Bitboard::RANK_1 | Bitboard::FILE_H,
        }
    }

    /// The squares from which a step in this direction leaves the board.
    pub fn edge(&self) -> (r: Bitboard)
        ensures
            r.0 == self.spec_edge(),
    {
        match *self {
            Direction::UpLeft => Bitboard(Bitboard::RANK_8 | Bitboard::FILE_A),
            Direction::Up => Bitboard(Bitboard::RANK_8),
            Direction::UpRight => Bitboard(Bitboard::RANK_8 | Bitboard::FILE_H),
            Direction::Left => Bitboard(Bitboard::FILE_A),
            Direction::Right => Bitboard(Bitboard::FILE_H),
            Direction::DownLeft => Bitboard(Bitboard::RANK_1 | Bitboard::FILE_A),
            Direction::Down => Bitboard(Bitboard::RANK_1),
            Direction::DownRight => Bitboard(Bitboard::RANK_1 | Bitboard::FILE_H),
        }
    }

    /// The board moved one step in this direction, with no care for the board's edges.
    pub open spec fn spec_step(self, x: u64) -> u64 {
        match self {
            Direction::UpLeft => x >> 9,
            Direction::Up => x >> 8,
            Direction::UpRight => x >> 7,
            Direction::Left => x >> 1,
            Direction::Right => x << 1,
            Direction::DownLeft => x << 7,
            Direction::Down => x << 8,
            Direction::DownRight => x << 9,
        }
    }

    /// Moves every square of `seeker` one step in this direction. A square on the edge that
    /// the step would cross wraps or is lost: callers test `edge` first.
    pub fn step(&self, seeker: Bitboard) -> (r: Bitboard)
        ensures
            r.0 == self.spec_step(seeker.0),
    {
        match *self {
            Direction::UpLeft => seeker.shift_upwards(9),
            Direction::Up => seeker.shift_upwards(8),
            Direction::UpRight => seeker.shift_upwards(7),
            Direction::Left => seeker.shift_upwards(1),
            Direction::Right => seeker.shift_downwards(1),
            Direction::DownLeft => seeker.shift_downwards(7),
            Direction::Down => seeker.shift_downwards(8),
            Direction::DownRight => seeker.shift_downwards(9),
        }
    }
}

proof fn lemma_edges(s: u64)
    by (bit_vector)
    requires
        s < 64,
    ensures
        ((1u64 << s) & (0xFFu64 | 0x0101_0101_0101_0101u64) == 0) == (s >= 8 && s % 8 != 0),
        ((1u64 << s) & 0xFFu64 == 0) == (s >= 8),
        ((1u64 << s) & (0xFFu64 | 0x8080_8080_8080_8080u64) == 0) == (s >= 8 && s % 8 != 7),
        ((1u64 << s) & 0x0101_0101_0101_0101u64 == 0) == (s % 8 != 0),
        ((1u64 << s) & 0x8080_8080_8080_8080u64 == 0) == (s % 8 != 7),
        ((1u64 << s) & (0xFF00_0000_0000_0000u64 | 0x0101_0101_0101_0101u64) == 0) == (s < 56 && s
            % 8 != 0),
        ((1u64 << s) & 0xFF00_0000_0000_0000u64 == 0) == (s < 56),
        ((1u64 << s) & (0xFF00_0000_0000_0000u64 | 0x8080_8080_8080_8080u64) == 0) == (s < 56 && s
            % 8 != 7),
{
}

proof fn lemma_steps(s: u64)
    by (bit_vector)
    requires
        s < 64,
    ensures
        s >= 9 ==> (1u64 << s) >> 9 == 1u64 << ((s - 9) as u64),
        s >= 8 ==> (1u64 << s) >> 8 == 1u64 << ((s - 8) as u64),
        s >= 7 ==> (1u64 << s) >> 7 == 1u64 << ((s - 7) as u64),
        s >= 1 ==> (1u64 << s) >> 1 == 1u64 << ((s - 1) as u64),
        s < 63 ==> (1u64 << s) << 1 == 1u64 << ((s + 1) as u64),
        s < 57 ==> (1u64 << s) << 7 == 1u64 << ((s + 7) as u64),
        s < 56 ==> (1u64 << s) << 8 == 1u64 << ((s + 8) as u64),
        s < 55 ==> (1u64 << s) << 9 == 1u64 << ((s + 9) as u64),
{
}

/// From a square of the board, a step in direction `d` stays on the board exactly when the
/// square is not on the direction's edge, and then the stepped board is the neighbour's.
pub proof fn lemma_step(d: Direction, sq: Square)
    requires
        sq.is_some(),
    ensures
        (single(sq.0 as u64) & d.spec_edge() == 0) == on_board(
            sq.file_index() + d.df(),
            sq.rank_index() + d.dr(),
        ),
        on_board(sq.file_index() + d.df(), sq.rank_index() + d.dr()) ==> d.spec_step(
            single(sq.0 as u64),
        ) == square_bit(sq.file_index() + d.df(), sq.rank_index() + d.dr()) && square_at(
            sq.file_index() + d.df(),
            sq.rank_index() + d.dr(),
        ) == sq.0 + d.dr() * 8 + d.df(),
{
    lemma_edges(sq.0 as u64);
    lemma_steps(sq.0 as u64);
}

} // verus!
