use vstd::prelude::*;
use crate::bit_move::BitMove;
use crate::bitboard::Bitboard;
use crate::bits::{lemma_drop_lowest, lemma_popcount_bound, popcount};
use crate::color::Color;
use crate::move_gen::{lemma_emit_step, lemma_source_step, Emit};
use crate::move_init::pawn_quiet_mask;
use crate::move_list::MoveList;
use crate::move_masks::{get_pawn_capture_mask, get_pawn_quiet_mask, MoveMasks};
use crate::piece::PieceType;
use crate::position::Position;
use crate::rank::Rank;
use crate::square::Square;

verus! {

impl Position {
    /// The number of moves that are written down for `piece` going from `source` to the
    /// squares of `targets`. `both_empty` says whether every square of a pawn's quiet mask
    /// is empty, which a double push needs.
    #[verifier::rlimit(50)]
    fn count_over(
        &self,
        emit: Emit,
        piece: PieceType,
        source: Square,
        targets: Bitboard,
        both_empty: bool,
    ) -> (r: usize)
        requires
            source.is_some(),
            both_empty == (pawn_quiet_mask(self.side, source.0 as int) & self@.all() == 0),
        ensures
            r == self@.emitted_over(emit, piece, source, targets.0).len(),
            r <= 256,
    {
        let side = self.side;
        let source_rank = source.rank();
        let (promotes, at_home) = match side {
            Color::White => (source_rank == Rank::R7, source_rank == Rank::R2),
            Color::Black => (source_rank == Rank::R2, source_rank == Rank::R7),
        };
        let en_passant_sq = self.en_passant_sq;
        let mut rest = targets;
        let mut count: usize = 0;
        proof {
            lemma_popcount_bound(targets.0);
        }
        while rest.is_not_empty()
            invariant
                source.is_some(),
                side == self.side,
                en_passant_sq == self@.en_passant,
                promotes == (source.rank_index() == crate::move_gen::promotion_row(side)),
                at_home == (source.rank_index() == crate::move_gen::home_row(side)),
                both_empty == (pawn_quiet_mask(side, source.0 as int) & self@.all() == 0),
                count + self@.emitted_over(emit, piece, source, rest.0).len()
                    == self@.emitted_over(emit, piece, source, targets.0).len(),
                count + 4 * popcount(rest.0) <= 256,
            decreases rest.0,
        {
            let ghost before = rest.0;
            proof {
                lemma_drop_lowest(before);
                lemma_emit_step(self@, emit, piece, source, before, Seq::<BitMove>::empty());
                assert((Seq::<BitMove>::empty() + self@.emitted_over(
                    emit,
                    piece,
                    source,
                    before,
                )).len() == self@.emitted_over(emit, piece, source, before).len());
            }
            let target = rest.pop_lsb();
            let ghost here = self@.emitted(emit, piece, source, target);
            assert((Seq::<BitMove>::empty() + here + self@.emitted_over(
                emit,
                piece,
                source,
                rest.0,
            )).len() == here.len() + self@.emitted_over(emit, piece, source, rest.0).len());
            let doubles = match side {
                Color::White => target.rank() == Rank::R4,
                Color::Black => target.rank() == Rank::R5,
            };
            let n: usize = match emit {
                Emit::Plain => 1,
                Emit::PawnCapture => if promotes {
                    4
                } else {
                    1
                },
                Emit::PawnQuiet => if at_home && doubles {
                    if both_empty {
                        1
                    } else {
                        0
                    }
                } else if promotes {
                    4
                } else {
                    1
                },
                Emit::EnPassant => if target == en_passant_sq {
                    1
                } else {
                    0
                },
            };
            assert(n == here.len());
            count = count + n;
        }
        count
    }

    /// The number of moves of the piece of role `role` on `source`.
    #[verifier::rlimit(50)]
    fn count_from(&self, tables: &MoveMasks, role: u8, source: Square) -> (r: usize)
        requires
            tables.wf(),
            self.occupancy_ok(),
            source.is_some(),
            role <= 5,
        ensures
            r == self@.moves_from(role as int, source).len(),
            r <= 768,
    {
        let side = self.side;
        let piece = self.own_piece(role);
        let quiet = get_pawn_quiet_mask(tables, side, source);
        let both_empty = quiet.intersect(self.ao).is_empty();
        if role == 0 {
            let (_enemy_pieces, enemy_occupancies) = self.enemy_pieces();
            let captures = get_pawn_capture_mask(tables, side, source);
            let on_en_passant_rank = match side {
                Color::White => source.rank() == Rank::R5,
                Color::Black => source.rank() == Rank::R4,
            };
            let first = self.count_over(
                Emit::PawnCapture,
                piece,
                source,
                captures.intersect(enemy_occupancies),
                both_empty,
            );
            let second = self.count_over(
                Emit::PawnQuiet,
                piece,
                source,
                quiet.intersect(self.ao.complement()),
                both_empty,
            );
            let third = if self.en_passant_sq.0 != Square::NONE && on_en_passant_rank {
                self.count_over(Emit::EnPassant, piece, source, captures, both_empty)
            } else {
                0
            };
            first + second + third
        } else {
            let targets = self.attacks_from(tables, role, source).intersect(
                self.own_occupancies().complement(),
            );
            self.count_over(Emit::Plain, piece, source, targets, both_empty)
        }
    }

    /// The number of moves of all pieces of role `role` of the side to move.
    fn count_of(&self, tables: &MoveMasks, role: u8) -> (r: usize)
        requires
            tables.wf(),
            self.occupancy_ok(),
            role <= 5,
        ensures
            r == self@.moves_of(
                role as int,
                self@.bb(PieceType::spec_of(self.side, role as int)),
            ).len(),
            r <= 49152,
    {
        let piece = self.own_piece(role);
        let mut sources = self.bbs[piece.index()];
        let ghost all = sources.0;
        let mut count: usize = 0;
        proof {
            lemma_popcount_bound(all);
        }
        while sources.is_not_empty()
            invariant
                tables.wf(),
                self.occupancy_ok(),
                role <= 5,
                count + self@.moves_of(role as int, sources.0).len() == self@.moves_of(
                    role as int,
                    all,
                ).len(),
                count + 768 * popcount(sources.0) <= 49152,
            decreases sources.0,
        {
            let ghost before = sources.0;
            proof {
                lemma_drop_lowest(before);
                lemma_source_step(self@, role as int, before, Seq::<BitMove>::empty());
                assert((Seq::<BitMove>::empty() + self@.moves_of(role as int, before)).len()
                    == self@.moves_of(role as int, before).len());
            }
            let source = sources.pop_lsb();
            assert((Seq::<BitMove>::empty() + self@.moves_from(role as int, source)
                + self@.moves_of(role as int, sources.0)).len() == self@.moves_from(
                role as int,
                source,
            ).len() + self@.moves_of(role as int, sources.0).len());
            let n = self.count_from(tables, role, source);
            count = count + n;
        }
        count
    }

    /// The number of pseudo-legal moves of the side to move.
    pub fn count_moves(&self, tables: &MoveMasks) -> (r: usize)
        requires
            tables.wf(),
            self.occupancy_ok(),
            self@.bb(PieceType::spec_of(self.side, 5)) != 0,
        ensures
            r == self@.moves().len(),
    {
        let king = self.own_piece(5);
        let source = self.bbs[king.index()].to_sq();
        let pawns = self.count_of(tables, 0);
        let knights = self.count_of(tables, 1);
        let kings = self.count_from(tables, 5, source);
        let short: usize = if self.may_castle(tables, true) {
            1
        } else {
            0
        };
        let long: usize = if self.may_castle(tables, false) {
            1
        } else {
            0
        };
        let bishops = self.count_of(tables, 2);
        let rooks = self.count_of(tables, 3);
        let queens = self.count_of(tables, 4);
        pawns + knights + kings + short + long + bishops + rooks + queens
    }

    /// The pseudo-legal moves of the side to move, when that side has a king and the moves
    /// fit into a move list; nothing otherwise.
    pub fn try_generate_moves(&self, tables: &MoveMasks) -> (r: Option<MoveList>)
        requires
            tables.wf(),
            self.occupancy_ok(),
        ensures
            r is Some <==> self@.bb(PieceType::spec_of(self.side, 5)) != 0 && self@.moves().len()
                <= MoveList::CAPACITY,
            r matches Some(list) ==> list.wf() && list@ == self@.moves(),
    {
        let king = self.own_piece(5);
        if self.bbs[king.index()].is_empty() {
            return None;
        }
        if self.count_moves(tables) > MoveList::CAPACITY {
            return None;
        }
        Some(self.generate_moves(tables))
    }
}

} // verus!
