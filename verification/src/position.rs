use vstd::prelude::*;
use crate::bit_move::{BitMove, MoveFlag};
use crate::bitboard::Bitboard;
use crate::bits::single;
use crate::board::{pieces_of, Board};
use crate::castling_rights::CastlingRights;
use crate::color::Color;
use crate::bits::{bit_at, group_bits};
use crate::move_gen::{double_pawn_flag, en_passant_flag, lemma_emit_step, lemma_source_step, promotions, Emit};
use crate::invariants::{is_king, lemma_apply_keeps_wf, lemma_taken_back_wf, lemma_undo_apply, taken_back};
use crate::generated::lemma_moves_accepted;
use crate::invariants::lemma_accepted_is_permitted;
use crate::laws::{law_moves_keep_legal, law_start_is_legal};
use crate::move_list::MoveList;
use crate::move_masks::{get_bishop_mask, get_king_mask, get_knight_mask, get_pawn_capture_mask, get_pawn_quiet_mask, get_queen_mask, get_rook_mask, MoveMasks};
use crate::rank::Rank;
use crate::piece::PieceType;
use crate::square::Square;

verus! {

/// A chess position: the twelve piece boards, the three occupancies, the side to move, the
/// en-passant square and the castling rights.
#[derive(Clone, Copy, Debug, PartialEq, Eq)]
pub struct Position {
    pub bbs: [Bitboard; 12],
    pub wo: Bitboard,
    pub bo: Bitboard,
    pub ao: Bitboard,
    pub side: Color,
    pub en_passant_sq: Square,
    pub castling_rights: CastlingRights,
}

impl View for Position {
    type V = Board;

    /// The position as a value, without the occupancies.
    open spec fn view(&self) -> Board {
        Board {
            pieces: Seq::new(12, |i: int| self.bbs[i].0),
            side: self.side,
            en_passant: self.en_passant_sq,
            rights: self.castling_rights,
        }
    }
}

impl Position {
    /// The position is well formed: the piece boards are pairwise disjoint, each side has
    /// one king, the en-passant square and the castling rights fit the board, and the
    /// occupancies are the unions of the piece boards.
    pub open spec fn wf(self) -> bool {
        self@.wf() && self.occupancy_ok()
    }

    /// The three occupancies are the unions of the piece boards.
    pub open spec fn occupancy_ok(self) -> bool {
        &&& self.wo.0 == self@.white()
        &&& self.bo.0 == self@.black()
        &&& self.ao.0 == self@.all()
        &&& self.ao.0 == self.wo.0 | self.bo.0
    }

    /// Sets the occupancy of all pieces to the union of White's and Black's.
    pub fn merge_occupancies(&mut self)
        ensures
            final(self).ao.0 == old(self).wo.0 | old(self).bo.0,
            final(self)@ == old(self)@,
            final(self).bbs == old(self).bbs,
            final(self).wo == old(self).wo,
            final(self).bo == old(self).bo,
    {
        self.ao = self.wo.union(self.bo);
    }

    /// Sets the three occupancies from the piece boards.
    pub fn populate_occupancies(&mut self)
        ensures
            final(self)@ == old(self)@,
            final(self).bbs == old(self).bbs,
            final(self).occupancy_ok(),
    {
        self.wo = self.bbs[0].union(self.bbs[1]).union(self.bbs[2]).union(self.bbs[3]).union(
            self.bbs[4],
        ).union(self.bbs[5]);
        self.bo = self.bbs[6].union(self.bbs[7]).union(self.bbs[8]).union(self.bbs[9]).union(
            self.bbs[10],
        ).union(self.bbs[11]);
        self.merge_occupancies();
    }

    /// The position at the start of a game.
    pub fn starting_position() -> (r: Position)
        ensures
            r@ == Board::start(),
            r.wf(),
            r@.legal(),
    {
        proof {
            law_start_is_legal();
        }
        let r = Position {
            bbs: [
                Bitboard(Bitboard::WP),
                Bitboard(Bitboard::WN),
                Bitboard(Bitboard::WB),
                Bitboard(Bitboard::WR),
                Bitboard(Bitboard::WQ),
                Bitboard(Bitboard::WK),
                Bitboard(Bitboard::BP),
                Bitboard(Bitboard::BN),
                Bitboard(Bitboard::BB),
                Bitboard(Bitboard::BR),
                Bitboard(Bitboard::BQ),
                Bitboard(Bitboard::BK),
            ],
            wo: Bitboard(Bitboard::WHITE_STARTING_PIECES),
            bo: Bitboard(Bitboard::BLACK_STARTING_PIECES),
            ao: Bitboard(Bitboard::ALL_STARTING_PIECES),
            side: Color::White,
            en_passant_sq: Square::none(),
            castling_rights: CastlingRights::all(),
        };
        proof {
            assert(r@.pieces =~= Board::start().pieces);
            lemma_starting_occupancies();
        }
        r
    }

    /// Puts `piece` on `sq`. The occupancies stay as they are.
    pub fn set_piece(&mut self, piece: PieceType, sq: Square)
        requires
            piece.is_piece(),
            sq.is_some(),
        ensures
            final(self)@ == old(self)@.set(piece, sq),
            final(self).wo == old(self).wo,
            final(self).bo == old(self).bo,
            final(self).ao == old(self).ao,
    {
        let i = piece.index();
        let mut bb = self.bbs[i];
        bb.set_sq(sq);
        self.bbs[i] = bb;
        assert(self@.pieces =~= old(self)@.set(piece, sq).pieces);
    }

    /// Takes `piece` from `sq`. The occupancies stay as they are.
    pub fn remove_piece(&mut self, piece: PieceType, sq: Square)
        requires
            piece.is_piece(),
            sq.is_some(),
        ensures
            final(self)@ == old(self)@.remove(piece, sq),
            final(self).wo == old(self).wo,
            final(self).bo == old(self).bo,
            final(self).ao == old(self).ao,
    {
        let i = piece.index();
        let mut bb = self.bbs[i];
        bb.pop_sq(sq);
        self.bbs[i] = bb;
        assert(self@.pieces =~= old(self)@.remove(piece, sq).pieces);
    }

    /// Does the move's work on the board, with no question about the mover's king: moves the
    /// piece, removes what it captures, does what the flag asks, updates the rights, passes
    /// the move to the other side and sets the occupancies anew.
    #[verifier::rlimit(50)]
    fn place_move(&mut self, bit_move: BitMove)
        requires
            old(self)@.permits(bit_move),
        ensures
            final(self)@ == old(self)@.apply(bit_move),
            final(self).occupancy_ok(),
    {
        let (source, target, piece, capture, flag) = bit_move.decode();
        let mover = self.side;

        self.remove_piece(piece, source);
        self.set_piece(piece, target);

        if capture != PieceType::Null {
            self.remove_piece(capture, target);
        }
        self.en_passant_sq = Square::none();

        match flag {
            MoveFlag::Null => (),
            MoveFlag::WDoublePawn => self.en_passant_sq = target.below(),
            MoveFlag::BDoublePawn => self.en_passant_sq = target.above(),
            MoveFlag::WEnPassant => self.remove_piece(PieceType::BP, target.below()),
            MoveFlag::BEnPassant => self.remove_piece(PieceType::WP, target.above()),
            MoveFlag::WKCastle => {
                self.remove_piece(PieceType::WR, Square(Square::H1));
                self.set_piece(PieceType::WR, Square(Square::F1));
            },
            MoveFlag::WQCastle => {
                self.remove_piece(PieceType::WR, Square(Square::A1));
                self.set_piece(PieceType::WR, Square(Square::D1));
            },
            MoveFlag::BKCastle => {
                self.remove_piece(PieceType::BR, Square(Square::H8));
                self.set_piece(PieceType::BR, Square(Square::F8));
            },
            MoveFlag::BQCastle => {
                self.remove_piece(PieceType::BR, Square(Square::A8));
                self.set_piece(PieceType::BR, Square(Square::D8));
            },
            MoveFlag::PromoQ => {
                self.remove_piece(piece, target);
                self.set_piece(
                    match mover {
                        Color::White => PieceType::WQ,
                        Color::Black => PieceType::BQ,
                    },
                    target,
                );
            },
            MoveFlag::PromoR => {
                self.remove_piece(piece, target);
                self.set_piece(
                    match mover {
                        Color::White => PieceType::WR,
                        Color::Black => PieceType::BR,
                    },
                    target,
                );
            },
            MoveFlag::PromoN => {
                self.remove_piece(piece, target);
                self.set_piece(
                    match mover {
                        Color::White => PieceType::WN,
                        Color::Black => PieceType::BN,
                    },
                    target,
                );
            },
            MoveFlag::PromoB => {
                self.remove_piece(piece, target);
                self.set_piece(
                    match mover {
                        Color::White => PieceType::WB,
                        Color::Black => PieceType::BB,
                    },
                    target,
                );
            },
        };

        self.castling_rights.update(source, target);
        self.side.switch();
        self.populate_occupancies();
        assert(self@.pieces =~= old(self)@.apply(bit_move).pieces);
    }

    /// Makes the move on the board. When the move leaves the mover's own king attacked, takes
    /// it back again, with the castling rights as they were, and returns false; otherwise
    /// returns true and leaves the move made.
    #[verifier::rlimit(50)]
    pub fn make_move(&mut self, bit_move: BitMove, tables: &MoveMasks) -> (r: bool)
        requires
            tables.wf(),
            old(self)@.permits(bit_move),
        ensures
            final(self).occupancy_ok(),
            r == !old(self)@.apply(bit_move).attacked_by(
                old(self)@.apply(bit_move).king_square(old(self).side),
                old(self).side.spec_opposite(),
            ),
            r ==> final(self)@ == old(self)@.apply(bit_move),
            !r ==> final(self)@ == old(self)@.apply(bit_move).undo(
                bit_move,
                old(self).castling_rights,
            ),
            old(self)@.wf() && old(self)@.accepts(bit_move) && !is_king(bit_move.spec_capture())
                ==> final(self).wf(),
            old(self)@.wf() && old(self)@.accepts(bit_move) && !r ==> final(self)@ == taken_back(
                old(self)@,
                bit_move,
            ),
            old(self)@.legal() && old(self)@.moves().contains(bit_move) ==> final(self)@.legal(),
    {
        proof {
            if old(self)@.wf() && old(self)@.accepts(bit_move) {
                lemma_undo_apply(old(self)@, bit_move);
                lemma_taken_back_wf(old(self)@, bit_move);
                if !is_king(bit_move.spec_capture()) {
                    lemma_apply_keeps_wf(old(self)@, bit_move);
                }
            }
            if old(self)@.legal() && old(self)@.moves().contains(bit_move) {
                law_moves_keep_legal(old(self)@, bit_move);
            }
        }
        let saved_rights = self.castling_rights;
        let mover = self.side;
        self.place_move(bit_move);

        let king = match mover {
            Color::White => PieceType::WK,
            Color::Black => PieceType::BK,
        };
        let king_square = self.bbs[king.index()].to_sq();
        let attacked = match mover {
            Color::White => self.is_square_attacked(
                tables,
                king_square,
                mover,
                &PieceType::BLACK_PIECES,
            ),
            Color::Black => self.is_square_attacked(
                tables,
                king_square,
                mover,
                &PieceType::WHITE_PIECES,
            ),
        };
        if attacked {
            self.undo_move(bit_move, saved_rights);
            return false;
        }
        true
    }

    /// Takes the move back: the side to move changes, the pieces return, and the castling
    /// rights become `old_castling_rights`. The en-passant square is set only when the move
    /// was an en-passant capture, to the move's target.
    #[verifier::rlimit(50)]
    pub fn undo_move(&mut self, bit_move: BitMove, old_castling_rights: CastlingRights)
        requires
            old(self)@.permits_undo(bit_move),
        ensures
            final(self)@ == old(self)@.undo(bit_move, old_castling_rights),
            final(self).occupancy_ok(),
    {
        let (source, target, piece, capture, flag) = bit_move.decode();

        self.side.switch();
        let mover = self.side;

        self.remove_piece(piece, target);
        self.set_piece(piece, source);

        if capture != PieceType::Null {
            self.set_piece(capture, target);
        }
        self.en_passant_sq = Square::none();

        match flag {
            MoveFlag::Null | MoveFlag::WDoublePawn | MoveFlag::BDoublePawn => (),
            MoveFlag::WEnPassant => {
                self.en_passant_sq = target;
                self.set_piece(PieceType::BP, target.below())
            },
            MoveFlag::BEnPassant => {
                self.en_passant_sq = target;
                self.set_piece(PieceType::WP, target.above())
            },
            MoveFlag::WKCastle => {
                self.set_piece(PieceType::WR, Square(Square::H1));
                self.remove_piece(PieceType::WR, Square(Square::F1));
            },
            MoveFlag::WQCastle => {
                self.set_piece(PieceType::WR, Square(Square::A1));
                self.remove_piece(PieceType::WR, Square(Square::D1));
            },
            MoveFlag::BKCastle => {
                self.set_piece(PieceType::BR, Square(Square::H8));
                self.remove_piece(PieceType::BR, Square(Square::F8));
            },
            MoveFlag::BQCastle => {
                self.set_piece(PieceType::BR, Square(Square::A8));
                self.remove_piece(PieceType::BR, Square(Square::D8));
            },
            MoveFlag::PromoQ => {
                self.remove_piece(
                    match mover {
                        Color::White => PieceType::WQ,
                        Color::Black => PieceType::BQ,
                    },
                    target,
                );
            },
            MoveFlag::PromoR => {
                self.remove_piece(
                    match mover {
                        Color::White => PieceType::WR,
                        Color::Black => PieceType::BR,
                    },
                    target,
                );
            },
            MoveFlag::PromoN => {
                self.remove_piece(
                    match mover {
                        Color::White => PieceType::WN,
                        Color::Black => PieceType::BN,
                    },
                    target,
                );
            },
            MoveFlag::PromoB => {
                self.remove_piece(
                    match mover {
                        Color::White => PieceType::WB,
                        Color::Black => PieceType::BB,
                    },
                    target,
                );
            },
        };

        self.castling_rights = old_castling_rights;
        self.populate_occupancies();
        assert(self@.pieces =~= old(self)@.undo(bit_move, old_castling_rights).pieces);
    }

    /// Whether a piece of the listed six attacks `square`. `defending_side` is the side that
    /// stands to lose the square, and `enemy` lists the attacker's pawn, knight, bishop, rook,
    /// queen and king.
    #[verifier::rlimit(50)]
    pub fn is_square_attacked(
        &self,
        tables: &MoveMasks,
        square: Square,
        defending_side: Color,
        enemy: &[PieceType; 6],
    ) -> (r: bool)
        requires
            tables.wf(),
            square.is_some(),
            self.occupancy_ok(),
            forall|i: int| 0 <= i < 6 ==> (#[trigger] enemy[i]).is_piece(),
        ensures
            r == self@.attacked_with(square, defending_side, enemy@),
    {
        if get_pawn_capture_mask(tables, defending_side, square).intersect(
            self.bbs[enemy[0].index()],
        ).is_not_empty() {
            return true;
        }
        if get_knight_mask(tables, square).intersect(self.bbs[enemy[1].index()]).is_not_empty() {
            return true;
        }
        if get_bishop_mask(tables, square, self.ao).intersect(
            self.bbs[enemy[2].index()],
        ).is_not_empty() {
            return true;
        }
        if get_rook_mask(tables, square, self.ao).intersect(
            self.bbs[enemy[3].index()],
        ).is_not_empty() {
            return true;
        }
        if get_queen_mask(tables, square, self.ao).intersect(
            self.bbs[enemy[4].index()],
        ).is_not_empty() {
            return true;
        }
        if get_king_mask(tables, square).intersect(self.bbs[enemy[5].index()]).is_not_empty() {
            return true;
        }
        false
    }
}

impl Position {
    /// The first of the six pieces `enemy_piece_types` that stands on `target`.
    pub fn get_target_piece(&self, enemy_piece_types: [PieceType; 6], target: Square) -> (r:
        PieceType)
        requires
            target.is_some(),
            forall|i: int| 0 <= i < 6 ==> (#[trigger] enemy_piece_types[i]).is_piece(),
            exists|i: int| 0 <= i < 6 && self@.holds(#[trigger] enemy_piece_types[i], target.0 as u64),
        ensures
            r == self@.target_piece(enemy_piece_types@, target),
            r.is_piece(),
    {
        let mut i: usize = 0;
        while i < 6
            invariant
                i <= 6,
                target.is_some(),
                forall|j: int| 0 <= j < 6 ==> (#[trigger] enemy_piece_types[j]).is_piece(),
                forall|j: int| 0 <= j < i ==> !self@.holds(#[trigger] enemy_piece_types[j], target.0 as u64),
            decreases 6 - i,
        {
            let piece_type = enemy_piece_types[i];
            if self.bbs[piece_type.index()].is_set_sq(target) {
                return piece_type;
            }
            i = i + 1;
        }
        PieceType::Null
    }

    /// The piece of `enemy_piece_types` on `target` when `target` is among
    /// `enemy_occupancies`, else `Null`.
    pub fn get_target_piece_if_any(
        &self,
        enemy_piece_types: [PieceType; 6],
        enemy_occupancies: Bitboard,
        target: Square,
    ) -> (r: PieceType)
        requires
            target.is_some(),
            forall|i: int| 0 <= i < 6 ==> (#[trigger] enemy_piece_types[i]).is_piece(),
            enemy_occupancies.0 & single(target.0 as u64) != 0 ==> exists|i: int|
                0 <= i < 6 && self@.holds(#[trigger] enemy_piece_types[i], target.0 as u64),
        ensures
            r == self@.target_piece_if_any(enemy_piece_types@, enemy_occupancies.0, target),
    {
        if enemy_occupancies.intersect(target.to_bb()).is_empty() {
            return PieceType::Null;
        }
        self.get_target_piece(enemy_piece_types, target)
    }

    /// The six pieces of the side not to move and the squares they stand on.
    pub(crate) fn enemy_pieces(&self) -> (r: ([PieceType; 6], Bitboard))
        requires
            self.occupancy_ok(),
        ensures
            r.0@ == pieces_of(self.side.spec_opposite()),
            r.1.0 == self@.occupied_by(self.side.spec_opposite()),
            forall|i: int| 0 <= i < 6 ==> (#[trigger] r.0[i]).is_piece(),
            forall|t: u64|
                t < 64 && #[trigger] bit_at(r.1.0, t) ==> exists|i: int|
                    0 <= i < 6 && self@.holds(#[trigger] r.0[i], t),
    {
        let r = match self.side {
            Color::White => (PieceType::BLACK_PIECES, self.bo),
            Color::Black => (PieceType::WHITE_PIECES, self.wo),
        };
        proof {
            broadcast use group_bits;
            assert forall|t: u64| t < 64 && #[trigger] bit_at(r.1.0, t) implies exists|i: int|
                0 <= i < 6 && self@.holds(#[trigger] r.0[i], t) by {
                if self@.holds(r.0[0], t) {
                } else if self@.holds(r.0[1], t) {
                } else if self@.holds(r.0[2], t) {
                } else if self@.holds(r.0[3], t) {
                } else if self@.holds(r.0[4], t) {
                } else {
                    assert(self@.holds(r.0[5], t));
                }
            }
        }
        r
    }

    /// Writes down the plain moves of `piece` from `source` to each square of `targets`.
    #[verifier::rlimit(50)]
    fn add_plain_moves(
        &self,
        move_list: &mut MoveList,
        piece: PieceType,
        source: Square,
        targets: Bitboard,
    )
        requires
            self.occupancy_ok(),
            old(move_list).wf(),
            source.is_some(),
            old(move_list)@.len() + self@.emitted_over(Emit::Plain, piece, source, targets.0).len()
                <= MoveList::CAPACITY,
        ensures
            final(move_list).wf(),
            final(move_list)@ == old(move_list)@ + self@.emitted_over(
                Emit::Plain,
                piece,
                source,
                targets.0,
            ),
    {
        let (enemy_pieces, enemy_occupancies) = self.enemy_pieces();
        let mut move_mask = targets;
        while move_mask.is_not_empty()
            invariant
                self.occupancy_ok(),
                move_list.wf(),
                source.is_some(),
                enemy_pieces@ == pieces_of(self.side.spec_opposite()),
                enemy_occupancies.0 == self@.occupied_by(self.side.spec_opposite()),
                forall|i: int| 0 <= i < 6 ==> (#[trigger] enemy_pieces[i]).is_piece(),
                forall|t: u64|
                    t < 64 && #[trigger] bit_at(enemy_occupancies.0, t) ==> exists|i: int|
                        0 <= i < 6 && self@.holds(#[trigger] enemy_pieces[i], t),
                move_list@ + self@.emitted_over(Emit::Plain, piece, source, move_mask.0) == old(
                    move_list,
                )@ + self@.emitted_over(Emit::Plain, piece, source, targets.0),
                old(move_list)@.len() + self@.emitted_over(
                    Emit::Plain,
                    piece,
                    source,
                    targets.0,
                ).len() <= MoveList::CAPACITY,
            decreases move_mask.0,
        {
            let ghost done = move_list@;
            let ghost rest = move_mask.0;
            let target = move_mask.pop_lsb();
            proof {
                lemma_emit_step(self@, Emit::Plain, piece, source, rest, done);
                if enemy_occupancies.0 & single(target.0 as u64) != 0 {
                    broadcast use group_bits;
                    crate::bits::lemma_zero_iff_no_bits(
                        enemy_occupancies.0 & single(target.0 as u64),
                    );
                    assert(bit_at(enemy_occupancies.0, target.0 as u64));
                }
            }
            let target_piece = self.get_target_piece_if_any(
                enemy_pieces,
                enemy_occupancies,
                target,
            );
            let ghost emitted = self@.emitted(Emit::Plain, piece, source, target);
            assert(done.len() + emitted.len() <= MoveList::CAPACITY) by {
                assert((done + emitted + self@.emitted_over(
                    Emit::Plain,
                    piece,
                    source,
                    move_mask.0,
                )).len() <= MoveList::CAPACITY);
            }
            move_list.add(BitMove::encode(source, target, piece, target_piece, MoveFlag::Null));
            assert(move_list@ =~= done + emitted);
        }
        assert(move_list@ =~= old(move_list)@ + self@.emitted_over(
            Emit::Plain,
            piece,
            source,
            targets.0,
        ));
    }
}

/// Writes down the four promotions of `pawn` from `source` to `target`.
fn add_promotions(
    move_list: &mut MoveList,
    source: Square,
    target: Square,
    pawn: PieceType,
    capture: PieceType,
)
    requires
        old(move_list).wf(),
        source.is_some(),
        target.is_some(),
        old(move_list)@.len() + 4 <= MoveList::CAPACITY,
    ensures
        final(move_list).wf(),
        final(move_list)@ == old(move_list)@ + promotions(source, target, pawn, capture),
{
    move_list.add(BitMove::encode(source, target, pawn, capture, MoveFlag::PromoN));
    move_list.add(BitMove::encode(source, target, pawn, capture, MoveFlag::PromoB));
    move_list.add(BitMove::encode(source, target, pawn, capture, MoveFlag::PromoR));
    move_list.add(BitMove::encode(source, target, pawn, capture, MoveFlag::PromoQ));
    assert(move_list@ =~= old(move_list)@ + promotions(source, target, pawn, capture));
}

impl Position {
    /// The pawn of the side to move.
    pub(crate) fn own_pawn(&self) -> (r: PieceType)
        ensures
            r == PieceType::spec_of(self.side, 0),
            r.is_piece(),
    {
        match self.side {
            Color::White => PieceType::WP,
            Color::Black => PieceType::BP,
        }
    }

    /// Writes down the captures of the pawn on `source` to each square of `targets`, which
    /// all hold a piece of the other side.
    #[verifier::rlimit(50)]
    fn add_pawn_captures(&self, move_list: &mut MoveList, source: Square, targets: Bitboard)
        requires
            self.occupancy_ok(),
            old(move_list).wf(),
            source.is_some(),
            targets.0 & !self@.occupied_by(self.side.spec_opposite()) == 0,
            old(move_list)@.len() + self@.emitted_over(
                Emit::PawnCapture,
                PieceType::spec_of(self.side, 0),
                source,
                targets.0,
            ).len() <= MoveList::CAPACITY,
        ensures
            final(move_list).wf(),
            final(move_list)@ == old(move_list)@ + self@.emitted_over(
                Emit::PawnCapture,
                PieceType::spec_of(self.side, 0),
                source,
                targets.0,
            ),
    {
        let pawn = self.own_pawn();
        let (enemy_pieces, enemy_occupancies) = self.enemy_pieces();
        let promotes = match self.side {
            Color::White => source.rank() == Rank::R7,
            Color::Black => source.rank() == Rank::R2,
        };
        let mut capture_mask = targets;
        proof {
            broadcast use group_bits;
            crate::bits::lemma_disjoint_bits(targets.0, !enemy_occupancies.0);
        }
        while capture_mask.is_not_empty()
            invariant
                self.occupancy_ok(),
                move_list.wf(),
                source.is_some(),
                pawn == PieceType::spec_of(self.side, 0),
                promotes == (source.rank_index() == crate::move_gen::promotion_row(self.side)),
                enemy_pieces@ == pieces_of(self.side.spec_opposite()),
                forall|i: int| 0 <= i < 6 ==> (#[trigger] enemy_pieces[i]).is_piece(),
                forall|t: u64|
                    t < 64 && #[trigger] bit_at(enemy_occupancies.0, t) ==> exists|i: int|
                        0 <= i < 6 && self@.holds(#[trigger] enemy_pieces[i], t),
                forall|t: u64|
                    t < 64 && #[trigger] bit_at(capture_mask.0, t) ==> bit_at(
                        enemy_occupancies.0,
                        t,
                    ),
                move_list@ + self@.emitted_over(Emit::PawnCapture, pawn, source, capture_mask.0)
                    == old(move_list)@ + self@.emitted_over(
                    Emit::PawnCapture,
                    pawn,
                    source,
                    targets.0,
                ),
                old(move_list)@.len() + self@.emitted_over(
                    Emit::PawnCapture,
                    pawn,
                    source,
                    targets.0,
                ).len() <= MoveList::CAPACITY,
            decreases capture_mask.0,
        {
            let ghost done = move_list@;
            let ghost rest = capture_mask.0;
            let target = capture_mask.pop_lsb();
            proof {
                broadcast use group_bits;
                lemma_emit_step(self@, Emit::PawnCapture, pawn, source, rest, done);
                assert(bit_at(rest, target.0 as u64));
            }
            let target_piece = self.get_target_piece(enemy_pieces, target);
            let ghost emitted = self@.emitted(Emit::PawnCapture, pawn, source, target);
            assert(done.len() + emitted.len() <= MoveList::CAPACITY) by {
                assert((done + emitted + self@.emitted_over(
                    Emit::PawnCapture,
                    pawn,
                    source,
                    capture_mask.0,
                )).len() <= MoveList::CAPACITY);
            }
            if promotes {
                add_promotions(move_list, source, target, pawn, target_piece);
            } else {
                move_list.add(BitMove::encode(source, target, pawn, target_piece, MoveFlag::Null));
            }
            assert(move_list@ =~= done + emitted);
        }
        assert(move_list@ =~= old(move_list)@ + self@.emitted_over(
            Emit::PawnCapture,
            pawn,
            source,
            targets.0,
        ));
    }

    /// Writes down the pushes of the pawn on `source` to each square of `targets`.
    /// `both_empty` says whether every square of the pawn's quiet mask is empty, which a
    /// double push needs.
    #[verifier::rlimit(50)]
    fn add_pawn_pushes(
        &self,
        move_list: &mut MoveList,
        source: Square,
        targets: Bitboard,
        both_empty: bool,
    )
        requires
            old(move_list).wf(),
            source.is_some(),
            both_empty == (crate::move_init::pawn_quiet_mask(self.side, source.0 as int)
                & self@.all() == 0),
            old(move_list)@.len() + self@.emitted_over(
                Emit::PawnQuiet,
                PieceType::spec_of(self.side, 0),
                source,
                targets.0,
            ).len() <= MoveList::CAPACITY,
        ensures
            final(move_list).wf(),
            final(move_list)@ == old(move_list)@ + self@.emitted_over(
                Emit::PawnQuiet,
                PieceType::spec_of(self.side, 0),
                source,
                targets.0,
            ),
    {
        let pawn = self.own_pawn();
        let side = self.side;
        let source_rank = source.rank();
        let (promotes, at_home) = match side {
            Color::White => (source_rank == Rank::R7, source_rank == Rank::R2),
            Color::Black => (source_rank == Rank::R2, source_rank == Rank::R7),
        };
        let flag = match side {
            Color::White => MoveFlag::WDoublePawn,
            Color::Black => MoveFlag::BDoublePawn,
        };
        let mut quiet_mask = targets;
        while quiet_mask.is_not_empty()
            invariant
                move_list.wf(),
                source.is_some(),
                side == self.side,
                pawn == PieceType::spec_of(side, 0),
                flag == double_pawn_flag(side),
                promotes == (source.rank_index() == crate::move_gen::promotion_row(side)),
                at_home == (source.rank_index() == crate::move_gen::home_row(side)),
                both_empty == (crate::move_init::pawn_quiet_mask(side, source.0 as int)
                    & self@.all() == 0),
                move_list@ + self@.emitted_over(Emit::PawnQuiet, pawn, source, quiet_mask.0)
                    == old(move_list)@ + self@.emitted_over(
                    Emit::PawnQuiet,
                    pawn,
                    source,
                    targets.0,
                ),
                old(move_list)@.len() + self@.emitted_over(
                    Emit::PawnQuiet,
                    pawn,
                    source,
                    targets.0,
                ).len() <= MoveList::CAPACITY,
            decreases quiet_mask.0,
        {
            let ghost done = move_list@;
            let ghost rest = quiet_mask.0;
            let target = quiet_mask.pop_lsb();
            proof {
                lemma_emit_step(self@, Emit::PawnQuiet, pawn, source, rest, done);
            }
            let ghost emitted = self@.emitted(Emit::PawnQuiet, pawn, source, target);
            assert(done.len() + emitted.len() <= MoveList::CAPACITY) by {
                assert((done + emitted + self@.emitted_over(
                    Emit::PawnQuiet,
                    pawn,
                    source,
                    quiet_mask.0,
                )).len() <= MoveList::CAPACITY);
            }
            let target_rank = target.rank();
            let doubles = match side {
                Color::White => target_rank == Rank::R4,
                Color::Black => target_rank == Rank::R5,
            };
            if at_home && doubles {
                if both_empty {
                    move_list.add(BitMove::encode(source, target, pawn, PieceType::Null, flag));
                }
            } else if promotes {
                add_promotions(move_list, source, target, pawn, PieceType::Null);
            } else {
                move_list.add(
                    BitMove::encode(source, target, pawn, PieceType::Null, MoveFlag::Null),
                );
            }
            assert(move_list@ =~= done + emitted);
        }
        assert(move_list@ =~= old(move_list)@ + self@.emitted_over(
            Emit::PawnQuiet,
            pawn,
            source,
            targets.0,
        ));
    }

    /// Writes down the en-passant capture of the pawn on `source`, when the en-passant square
    /// is among `targets`.
    #[verifier::rlimit(50)]
    fn add_en_passant(&self, move_list: &mut MoveList, source: Square, targets: Bitboard)
        requires
            old(move_list).wf(),
            source.is_some(),
            old(move_list)@.len() + self@.emitted_over(
                Emit::EnPassant,
                PieceType::spec_of(self.side, 0),
                source,
                targets.0,
            ).len() <= MoveList::CAPACITY,
        ensures
            final(move_list).wf(),
            final(move_list)@ == old(move_list)@ + self@.emitted_over(
                Emit::EnPassant,
                PieceType::spec_of(self.side, 0),
                source,
                targets.0,
            ),
    {
        let pawn = self.own_pawn();
        let flag = match self.side {
            Color::White => MoveFlag::WEnPassant,
            Color::Black => MoveFlag::BEnPassant,
        };
        let en_passant_sq = self.en_passant_sq;
        let mut en_passant_mask = targets;
        while en_passant_mask.is_not_empty()
            invariant
                move_list.wf(),
                source.is_some(),
                pawn == PieceType::spec_of(self.side, 0),
                flag == en_passant_flag(self.side),
                en_passant_sq == self@.en_passant,
                move_list@ + self@.emitted_over(Emit::EnPassant, pawn, source, en_passant_mask.0)
                    == old(move_list)@ + self@.emitted_over(
                    Emit::EnPassant,
                    pawn,
                    source,
                    targets.0,
                ),
                old(move_list)@.len() + self@.emitted_over(
                    Emit::EnPassant,
                    pawn,
                    source,
                    targets.0,
                ).len() <= MoveList::CAPACITY,
            decreases en_passant_mask.0,
        {
            let ghost done = move_list@;
            let ghost rest = en_passant_mask.0;
            let target = en_passant_mask.pop_lsb();
            proof {
                lemma_emit_step(self@, Emit::EnPassant, pawn, source, rest, done);
            }
            let ghost emitted = self@.emitted(Emit::EnPassant, pawn, source, target);
            assert(done.len() + emitted.len() <= MoveList::CAPACITY) by {
                assert((done + emitted + self@.emitted_over(
                    Emit::EnPassant,
                    pawn,
                    source,
                    en_passant_mask.0,
                )).len() <= MoveList::CAPACITY);
            }
            if target == en_passant_sq {
                move_list.add(BitMove::encode(source, target, pawn, PieceType::Null, flag));
            }
            assert(move_list@ =~= done + emitted);
        }
        assert(move_list@ =~= old(move_list)@ + self@.emitted_over(
            Emit::EnPassant,
            pawn,
            source,
            targets.0,
        ));
    }
}

impl Position {
    /// Writes down the moves of the pawn on `source`: captures, pushes, en passant.
    fn add_moves_of_pawn(&self, tables: &MoveMasks, move_list: &mut MoveList, source: Square)
        requires
            tables.wf(),
            self.occupancy_ok(),
            old(move_list).wf(),
            source.is_some(),
            old(move_list)@.len() + self@.moves_from(0, source).len() <= MoveList::CAPACITY,
        ensures
            final(move_list).wf(),
            final(move_list)@ == old(move_list)@ + self@.moves_from(0, source),
    {
        let side = self.side;
        let (_enemy_pieces, enemy_occupancies) = self.enemy_pieces();
        let captures = get_pawn_capture_mask(tables, side, source);
        let quiet = get_pawn_quiet_mask(tables, side, source);
        let capture_mask = captures.intersect(enemy_occupancies);
        let quiet_mask = quiet.intersect(self.ao.complement());
        let both_empty = quiet.intersect(self.ao).is_empty();
        let on_en_passant_rank = match side {
            Color::White => source.rank() == Rank::R5,
            Color::Black => source.rank() == Rank::R4,
        };
        let ghost pawn = PieceType::spec_of(side, 0);
        let ghost first = self@.emitted_over(Emit::PawnCapture, pawn, source, capture_mask.0);
        let ghost second = self@.emitted_over(Emit::PawnQuiet, pawn, source, quiet_mask.0);
        proof {
            assert(capture_mask.0 & !enemy_occupancies.0 == 0) by {
                let a = captures.0;
                let b = enemy_occupancies.0;
                assert((a & b) & !b == 0) by (bit_vector);
            }
            assert(self@.moves_from(0, source).len() >= first.len() + second.len());
        }
        self.add_pawn_captures(move_list, source, capture_mask);
        self.add_pawn_pushes(move_list, source, quiet_mask, both_empty);
        if self.en_passant_sq.0 != Square::NONE && on_en_passant_rank {
            self.add_en_passant(move_list, source, captures);
        }
        assert(move_list@ =~= old(move_list)@ + self@.moves_from(0, source));
    }

    /// The squares the piece of role `role` attacks from `source`: 1 for the knight, 2 for
    /// the bishop, 3 for the rook, 4 for the queen, anything else for the king.
    pub(crate) fn attacks_from(&self, tables: &MoveMasks, role: u8, source: Square) -> (r: Bitboard)
        requires
            tables.wf(),
            self.occupancy_ok(),
            source.is_some(),
        ensures
            r.0 == self@.attack_set(role as int, source),
    {
        if role == 1 {
            get_knight_mask(tables, source)
        } else if role == 2 {
            get_bishop_mask(tables, source, self.ao)
        } else if role == 3 {
            get_rook_mask(tables, source, self.ao)
        } else if role == 4 {
            get_queen_mask(tables, source, self.ao)
        } else {
            get_king_mask(tables, source)
        }
    }

    /// The piece of the side to move of role `role`, 0 for the pawn up to 5 for the king.
    pub(crate) fn own_piece(&self, role: u8) -> (r: PieceType)
        requires
            role <= 5,
        ensures
            r == PieceType::spec_of(self.side, role as int),
            r.is_piece(),
    {
        match self.side {
            Color::White => PieceType::from_index(role),
            Color::Black => PieceType::from_index(role + 6),
        }
    }

    /// The squares that hold a piece of the side to move.
    pub(crate) fn own_occupancies(&self) -> (r: Bitboard)
        requires
            self.occupancy_ok(),
        ensures
            r.0 == self@.occupied_by(self.side),
    {
        match self.side {
            Color::White => self.wo,
            Color::Black => self.bo,
        }
    }

    /// Writes down the moves of the piece of role `role` on `source`.
    fn add_moves_from(
        &self,
        tables: &MoveMasks,
        move_list: &mut MoveList,
        role: u8,
        source: Square,
    )
        requires
            tables.wf(),
            self.occupancy_ok(),
            old(move_list).wf(),
            source.is_some(),
            role <= 5,
            old(move_list)@.len() + self@.moves_from(role as int, source).len()
                <= MoveList::CAPACITY,
        ensures
            final(move_list).wf(),
            final(move_list)@ == old(move_list)@ + self@.moves_from(role as int, source),
    {
        if role == 0 {
            self.add_moves_of_pawn(tables, move_list, source);
        } else {
            let piece = self.own_piece(role);
            let inv_own_occupancies = self.own_occupancies().complement();
            let move_mask = self.attacks_from(tables, role, source).intersect(
                inv_own_occupancies,
            );
            self.add_plain_moves(move_list, piece, source, move_mask);
        }
    }

    /// Writes down the moves of all pieces of role `role` of the side to move.
    fn add_moves_of(&self, tables: &MoveMasks, move_list: &mut MoveList, role: u8)
        requires
            tables.wf(),
            self.occupancy_ok(),
            old(move_list).wf(),
            role <= 5,
            old(move_list)@.len() + self@.moves_of(
                role as int,
                self@.bb(PieceType::spec_of(self.side, role as int)),
            ).len() <= MoveList::CAPACITY,
        ensures
            final(move_list).wf(),
            final(move_list)@ == old(move_list)@ + self@.moves_of(
                role as int,
                self@.bb(PieceType::spec_of(self.side, role as int)),
            ),
    {
        let piece = self.own_piece(role);
        let mut sources = self.bbs[piece.index()];
        let ghost all = sources.0;
        while sources.is_not_empty()
            invariant
                tables.wf(),
                self.occupancy_ok(),
                move_list.wf(),
                role <= 5,
                move_list@ + self@.moves_of(role as int, sources.0) == old(move_list)@
                    + self@.moves_of(role as int, all),
                old(move_list)@.len() + self@.moves_of(role as int, all).len()
                    <= MoveList::CAPACITY,
            decreases sources.0,
        {
            let ghost done = move_list@;
            let ghost rest = sources.0;
            let source = sources.pop_lsb();
            proof {
                lemma_source_step(self@, role as int, rest, done);
                assert((done + self@.moves_from(role as int, source) + self@.moves_of(
                    role as int,
                    sources.0,
                )).len() <= MoveList::CAPACITY);
            }
            self.add_moves_from(tables, move_list, role, source);
        }
        assert(move_list@ =~= old(move_list)@ + self@.moves_of(role as int, all));
    }

    /// Whether the side to move may castle on the given wing: it has the right, the squares
    /// between king and rook are empty, and the king's square, the square it crosses and the
    /// square it lands on are not attacked.
    pub fn may_castle(&self, tables: &MoveMasks, king_side: bool) -> (r: bool)
        requires
            tables.wf(),
            self.occupancy_ok(),
        ensures
            r == self@.may_castle(king_side),
    {
        let side = self.side;
        let (enemy_pieces, _enemy_occupancies) = self.enemy_pieces();
        let right = match side {
            Color::White => if king_side {
                self.castling_rights.wk()
            } else {
                self.castling_rights.wq()
            },
            Color::Black => if king_side {
                self.castling_rights.bk()
            } else {
                self.castling_rights.bq()
            },
        };
        let path = match side {
            Color::White => if king_side {
                Bitboard(Bitboard::W_KING_SIDE_MASK)
            } else {
                Bitboard(Bitboard::W_QUEEN_SIDE_MASK)
            },
            Color::Black => if king_side {
                Bitboard(Bitboard::B_KING_SIDE_MASK)
            } else {
                Bitboard(Bitboard::B_QUEEN_SIDE_MASK)
            },
        };
        let base: u8 = match side {
            Color::White => Square::A1,
            Color::Black => Square::A8,
        };
        let start = Square(base + 4);
        let crossed = Square(
            if king_side {
                base + 5
            } else {
                base + 3
            },
        );
        let target = Square(
            if king_side {
                base + 6
            } else {
                base + 2
            },
        );
        right && self.ao.intersect(path).is_empty() && !self.is_square_attacked(
            tables,
            start,
            side,
            &enemy_pieces,
        ) && !self.is_square_attacked(tables, crossed, side, &enemy_pieces)
            && !self.is_square_attacked(tables, target, side, &enemy_pieces)
    }

    /// Writes down the castling move of the side to move on the given wing, when it may
    /// castle there. `source` is the king's square.
    fn add_castling(
        &self,
        tables: &MoveMasks,
        move_list: &mut MoveList,
        source: Square,
        king_side: bool,
    )
        requires
            tables.wf(),
            self.occupancy_ok(),
            old(move_list).wf(),
            source.is_some(),
            source == self@.king_square(self.side),
            old(move_list)@.len() + self@.castling_moves(king_side).len() <= MoveList::CAPACITY,
        ensures
            final(move_list).wf(),
            final(move_list)@ == old(move_list)@ + self@.castling_moves(king_side),
    {
        let king = self.own_piece(5);
        let flag = match self.side {
            Color::White => if king_side {
                MoveFlag::WKCastle
            } else {
                MoveFlag::WQCastle
            },
            Color::Black => if king_side {
                MoveFlag::BKCastle
            } else {
                MoveFlag::BQCastle
            },
        };
        let target = match self.side {
            Color::White => if king_side {
                Square(Square::G1)
            } else {
                Square(Square::C1)
            },
            Color::Black => if king_side {
                Square(Square::G8)
            } else {
                Square(Square::C8)
            },
        };
        if self.may_castle(tables, king_side) {
            move_list.add(BitMove::encode(source, target, king, PieceType::Null, flag));
        }
        assert(move_list@ =~= old(move_list)@ + self@.castling_moves(king_side));
    }

    /// The pseudo-legal moves of the side to move, in the order they are generated: the
    /// pawns', the knights', the king's with castling, the bishops', the rooks', the queens'.
    /// Some of them may leave the mover's king attacked; `make_move` turns those down.
    #[verifier::rlimit(50)]
    pub fn generate_moves(&self, tables: &MoveMasks) -> (r: MoveList)
        requires
            tables.wf(),
            self.occupancy_ok(),
            self@.bb(PieceType::spec_of(self.side, 5)) != 0,
            self@.moves().len() <= MoveList::CAPACITY,
        ensures
            r.wf(),
            r@ == self@.moves(),
            self@.wf() ==> forall|i: int|
                0 <= i < r@.len() ==> self@.accepts(#[trigger] r@[i]) && self@.permits(r@[i]),
    {
        proof {
            if self@.wf() {
                assert forall|i: int| 0 <= i < self@.moves().len() implies self@.accepts(
                    #[trigger] self@.moves()[i],
                ) && self@.permits(self@.moves()[i]) by {
                    let m = self@.moves()[i];
                    assert(self@.moves().contains(m));
                    lemma_moves_accepted(self@, m);
                    lemma_accepted_is_permitted(self@, m);
                }
            }
        }
        let mut move_list = MoveList::new();
        let ghost b = self@;
        let ghost side = self.side;
        let ghost pawns = b.moves_of(0, b.bb(PieceType::spec_of(side, 0)));
        let ghost knights = b.moves_of(1, b.bb(PieceType::spec_of(side, 1)));
        let ghost king = b.moves_from(5, b.king_square(side));
        let ghost bishops = b.moves_of(2, b.bb(PieceType::spec_of(side, 2)));
        let ghost rooks = b.moves_of(3, b.bb(PieceType::spec_of(side, 3)));
        let ghost queens = b.moves_of(4, b.bb(PieceType::spec_of(side, 4)));
        assert(b.moves().len() == pawns.len() + knights.len() + king.len() + b.castling_moves(
            true,
        ).len() + b.castling_moves(false).len() + bishops.len() + rooks.len() + queens.len());

        self.add_moves_of(tables, &mut move_list, 0);
        self.add_moves_of(tables, &mut move_list, 1);

        let king_piece = self.own_piece(5);
        let source = self.bbs[king_piece.index()].to_sq();
        self.add_moves_from(tables, &mut move_list, 5, source);
        self.add_castling(tables, &mut move_list, source, true);
        self.add_castling(tables, &mut move_list, source, false);

        self.add_moves_of(tables, &mut move_list, 2);
        self.add_moves_of(tables, &mut move_list, 3);
        self.add_moves_of(tables, &mut move_list, 4);
        assert(move_list@ =~= b.moves());
        move_list
    }
}

impl Board {
    /// The position at the start of a game.
    pub open spec fn start() -> Board {
        Board {
            pieces: seq![
                Bitboard::WP,
                Bitboard::WN,
                Bitboard::WB,
                Bitboard::WR,
                Bitboard::WQ,
                Bitboard::WK,
                Bitboard::BP,
                Bitboard::BN,
                Bitboard::BB,
                Bitboard::BR,
                Bitboard::BQ,
                Bitboard::BK,
            ],
            side: Color::White,
            en_passant: Square(Square::NONE),
            rights: CastlingRights { data: CastlingRights::DEFAULT },
        }
    }
}

pub proof fn lemma_starting_occupancies()
    ensures
        Board::start().white() == Bitboard::WHITE_STARTING_PIECES,
        Board::start().black() == Bitboard::BLACK_STARTING_PIECES,
        Board::start().all() == Bitboard::ALL_STARTING_PIECES,
{
    assert(0x00FF_0000_0000_0000u64 | 0x4200_0000_0000_0000u64 | 0x2400_0000_0000_0000u64
        | 0x8100_0000_0000_0000u64 | 0x0800_0000_0000_0000u64 | 0x1000_0000_0000_0000u64
        == 0xFFFF_0000_0000_0000u64) by (bit_vector);
    assert(0xFF00u64 | 0x42u64 | 0x24u64 | 0x81u64 | 0x08u64 | 0x10u64 == 0xFFFFu64)
        by (bit_vector);
    assert(0xFFFF_0000_0000_0000u64 | 0xFFFFu64 == 0xFFFF_0000_0000_FFFFu64) by (bit_vector);
}

impl Default for Position {
    /// The empty board with White to move, no en-passant square and no castling right.
    fn default() -> (r: Position)
        ensures
            r@.pieces == Seq::new(12, |i: int| 0u64),
            r@.side == Color::White,
            r@.en_passant.0 == Square::NONE,
            r@.rights.data == CastlingRights::NONE,
            r.wo.0 == 0 && r.bo.0 == 0 && r.ao.0 == 0,
    {
        let r = Position {
            bbs: [Bitboard(0);12],
            wo: Bitboard(0),
            bo: Bitboard(0),
            ao: Bitboard(0),
            side: Color::White,
            en_passant_sq: Square::none(),
            castling_rights: CastlingRights::none(),
        };
        assert(r@.pieces =~= Seq::new(12, |i: int| 0u64));
        r
    }
}

} // verus!
