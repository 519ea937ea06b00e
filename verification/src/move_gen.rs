use vstd::prelude::*;
use crate::bit_move::{BitMove, MoveFlag};
use crate::bitboard::Bitboard;
use crate::bits::{drop_lowest, lemma_drop_lowest, lowest, single};
use crate::board::{pieces_of, Board};
use crate::color::Color;
use crate::move_init::{bishop_attacks, king_mask, knight_mask, pawn_capture_mask, pawn_quiet_mask, rook_attacks};
use crate::move_list::MoveList;
use crate::move_masks::{queen_attacks, MoveMasks};
use crate::position::Position;
use crate::piece::PieceType;
use crate::square::Square;

verus! {

/// The way a move to a target square is written down.
#[derive(Clone, Copy, Debug, PartialEq, Eq, Structural)]
pub enum Emit {
    /// One move without a flag, capturing what stands on the target.
    Plain,
    /// A pawn's capture: four promotions from the promotion row, else one move.
    PawnCapture,
    /// A pawn's push: the double push, four promotions or one move.
    PawnQuiet,
    /// A pawn's en-passant capture, for the en-passant square alone.
    EnPassant,
}

/// The row a pawn of `side` promotes from.
pub open spec fn promotion_row(side: Color) -> int {
    match side {
        Color::White => 1,
        Color::Black => 6,
    }
}

/// The row a pawn of `side` starts on.
pub open spec fn home_row(side: Color) -> int {
    match side {
        Color::White => 6,
        Color::Black => 1,
    }
}

/// The row a pawn of `side` lands on after a double push.
pub open spec fn double_push_row(side: Color) -> int {
    match side {
        Color::White => 4,
        Color::Black => 3,
    }
}

/// The row from which a pawn of `side` captures en passant.
pub open spec fn en_passant_row(side: Color) -> int {
    match side {
        Color::White => 3,
        Color::Black => 4,
    }
}

/// The double-push flag of `side`.
pub open spec fn double_pawn_flag(side: Color) -> MoveFlag {
    match side {
        Color::White => MoveFlag::WDoublePawn,
        Color::Black => MoveFlag::BDoublePawn,
    }
}

/// The en-passant flag of `side`.
pub open spec fn en_passant_flag(side: Color) -> MoveFlag {
    match side {
        Color::White => MoveFlag::WEnPassant,
        Color::Black => MoveFlag::BEnPassant,
    }
}

/// The four promotions of a pawn from `source` to `target`, in the order knight, bishop,
/// rook, queen.
pub open spec fn promotions(
    source: Square,
    target: Square,
    pawn: PieceType,
    capture: PieceType,
) -> Seq<BitMove> {
    seq![
        BitMove::spec_encode(source, target, pawn, capture, MoveFlag::PromoN),
        BitMove::spec_encode(source, target, pawn, capture, MoveFlag::PromoB),
        BitMove::spec_encode(source, target, pawn, capture, MoveFlag::PromoR),
        BitMove::spec_encode(source, target, pawn, capture, MoveFlag::PromoQ),
    ]
}

impl Board {
    /// The first of the six pieces `enemy` that stands on `target`; `Null` when none does.
    pub open spec fn target_piece(self, enemy: Seq<PieceType>, target: Square) -> PieceType {
        let t = target.0 as u64;
        if self.holds(enemy[0], t) {
            enemy[0]
        } else if self.holds(enemy[1], t) {
            enemy[1]
        } else if self.holds(enemy[2], t) {
            enemy[2]
        } else if self.holds(enemy[3], t) {
            enemy[3]
        } else if self.holds(enemy[4], t) {
            enemy[4]
        } else if self.holds(enemy[5], t) {
            enemy[5]
        } else {
            PieceType::Null
        }
    }

    /// The piece of `enemy` on `target` when `target` is among `enemy_occupancies`, else
    /// `Null`.
    pub open spec fn target_piece_if_any(
        self,
        enemy: Seq<PieceType>,
        enemy_occupancies: u64,
        target: Square,
    ) -> PieceType {
        if enemy_occupancies & single(target.0 as u64) == 0 {
            PieceType::Null
        } else {
            self.target_piece(enemy, target)
        }
    }

    /// The piece of the side not to move that a move to `target` captures, `Null` when the
    /// target holds none.
    pub open spec fn captured_on(self, target: Square) -> PieceType {
        self.target_piece_if_any(
            pieces_of(self.side.spec_opposite()),
            self.occupied_by(self.side.spec_opposite()),
            target,
        )
    }

    /// The moves written down for `piece` going from `source` to `target`.
    pub open spec fn emitted(
        self,
        emit: Emit,
        piece: PieceType,
        source: Square,
        target: Square,
    ) -> Seq<BitMove> {
        let side = self.side;
        match emit {
            Emit::Plain => seq![
                BitMove::spec_encode(
                    source,
                    target,
                    piece,
                    self.captured_on(target),
                    MoveFlag::Null,
                ),
            ],
            Emit::PawnCapture => {
                let capture = self.target_piece(pieces_of(side.spec_opposite()), target);
                if source.rank_index() == promotion_row(side) {
                    promotions(source, target, piece, capture)
                } else {
                    seq![BitMove::spec_encode(source, target, piece, capture, MoveFlag::Null)]
                }
            },
            Emit::PawnQuiet => {
                if source.rank_index() == home_row(side) && target.rank_index()
                    == double_push_row(side) {
                    if pawn_quiet_mask(side, source.0 as int) & self.all() == 0 {
                        seq![
                            BitMove::spec_encode(
                                source,
                                target,
                                piece,
                                PieceType::Null,
                                double_pawn_flag(side),
                            ),
                        ]
                    } else {
                        Seq::empty()
                    }
                } else if source.rank_index() == promotion_row(side) {
                    promotions(source, target, piece, PieceType::Null)
                } else {
                    seq![
                        BitMove::spec_encode(
                            source,
                            target,
                            piece,
                            PieceType::Null,
                            MoveFlag::Null,
                        ),
                    ]
                }
            },
            Emit::EnPassant => {
                if target == self.en_passant {
                    seq![
                        BitMove::spec_encode(
                            source,
                            target,
                            piece,
                            PieceType::Null,
                            en_passant_flag(side),
                        ),
                    ]
                } else {
                    Seq::empty()
                }
            },
        }
    }

    /// The moves written down for `piece` going from `source` to each square of `targets`,
    /// lowest square first.
    pub open spec fn emitted_over(
        self,
        emit: Emit,
        piece: PieceType,
        source: Square,
        targets: u64,
    ) -> Seq<BitMove>
        decreases targets,
        via Self::emitted_over_decreases
    {
        if targets == 0 {
            Seq::empty()
        } else {
            self.emitted(emit, piece, source, Square(lowest(targets) as u8))
                + self.emitted_over(emit, piece, source, drop_lowest(targets))
        }
    }

    #[via_fn]
    proof fn emitted_over_decreases(
        self,
        emit: Emit,
        piece: PieceType,
        source: Square,
        targets: u64,
    ) {
        if targets != 0 {
            lemma_drop_lowest(targets);
        }
    }

    /// The squares the piece of role `role` attacks from `source`: 1 for the knight, 2 for
    /// the bishop, 3 for the rook, 4 for the queen, 5 for the king. The sliders stop at the
    /// occupied squares.
    pub open spec fn attack_set(self, role: int, source: Square) -> u64 {
        let s = source.0 as int;
        let occ = self.all() & !single(source.0 as u64);
        if role == 1 {
            knight_mask(s)
        } else if role == 2 {
            bishop_attacks(s, occ)
        } else if role == 3 {
            rook_attacks(s, occ)
        } else if role == 4 {
            queen_attacks(s, occ)
        } else {
            king_mask(s)
        }
    }

    /// The moves of the piece of role `role` that stands on `source`; 0 is the pawn. A pawn's
    /// captures come first, then its pushes, then its en-passant capture. Another piece goes
    /// to every square it attacks that holds no piece of its own side.
    pub open spec fn moves_from(self, role: int, source: Square) -> Seq<BitMove> {
        let side = self.side;
        let piece = PieceType::spec_of(side, role);
        if role == 0 {
            let captures = pawn_capture_mask(side, source.0 as int);
            self.emitted_over(
                Emit::PawnCapture,
                piece,
                source,
                captures & self.occupied_by(side.spec_opposite()),
            ) + self.emitted_over(
                Emit::PawnQuiet,
                piece,
                source,
                pawn_quiet_mask(side, source.0 as int) & !self.all(),
            ) + (if self.en_passant.0 != Square::NONE && source.rank_index() == en_passant_row(
                side,
            ) {
                self.emitted_over(Emit::EnPassant, piece, source, captures)
            } else {
                Seq::empty()
            })
        } else {
            self.emitted_over(
                Emit::Plain,
                piece,
                source,
                self.attack_set(role, source) & !self.occupied_by(side),
            )
        }
    }

    /// The moves of the pieces of role `role` that stand on the squares of `sources`, lowest
    /// square first.
    pub open spec fn moves_of(self, role: int, sources: u64) -> Seq<BitMove>
        decreases sources,
        via Self::moves_of_decreases
    {
        if sources == 0 {
            Seq::empty()
        } else {
            self.moves_from(role, Square(lowest(sources) as u8)) + self.moves_of(
                role,
                drop_lowest(sources),
            )
        }
    }

    #[via_fn]
    proof fn moves_of_decreases(self, role: int, sources: u64) {
        if sources != 0 {
            lemma_drop_lowest(sources);
        }
    }

    /// Whether the side to move may castle on the given wing: it has the right, the squares
    /// between king and rook are empty, and the king's square, the square it crosses and the
    /// square it lands on are not attacked.
    pub open spec fn may_castle(self, king_side: bool) -> bool {
        let side = self.side;
        let enemy = side.spec_opposite();
        let base: u8 = match side {
            Color::White => 56,
            Color::Black => 0,
        };
        let right = match side {
            Color::White => if king_side {
                self.rights.spec_wk()
            } else {
                self.rights.spec_wq()
            },
            Color::Black => if king_side {
                self.rights.spec_bk()
            } else {
                self.rights.spec_bq()
            },
        };
        let path = match side {
            Color::White => if king_side {
                Bitboard::W_KING_SIDE_MASK
            } else {
                Bitboard::W_QUEEN_SIDE_MASK
            },
            Color::Black => if king_side {
                Bitboard::B_KING_SIDE_MASK
            } else {
                Bitboard::B_QUEEN_SIDE_MASK
            },
        };
        let crossed = Square(
            if king_side {
                (base + 5) as u8
            } else {
                (base + 3) as u8
            },
        );
        &&& right
        &&& self.all() & path == 0
        &&& !self.attacked_by(Square((base + 4) as u8), enemy)
        &&& !self.attacked_by(crossed, enemy)
        &&& !self.attacked_by(self.castling_target(king_side), enemy)
    }

    /// The square the king of the side to move lands on when it castles on the given wing.
    pub open spec fn castling_target(self, king_side: bool) -> Square {
        match self.side {
            Color::White => if king_side {
                Square(Square::G1)
            } else {
                Square(Square::C1)
            },
            Color::Black => if king_side {
                Square(Square::G8)
            } else {
                Square(Square::C8)
            },
        }
    }

    /// The castling flag of the side to move for the given wing.
    pub open spec fn castling_flag(self, king_side: bool) -> MoveFlag {
        match self.side {
            Color::White => if king_side {
                MoveFlag::WKCastle
            } else {
                MoveFlag::WQCastle
            },
            Color::Black => if king_side {
                MoveFlag::BKCastle
            } else {
                MoveFlag::BQCastle
            },
        }
    }

    /// The castling move of the side to move on the given wing, when it may castle there.
    pub open spec fn castling_moves(self, king_side: bool) -> Seq<BitMove> {
        if self.may_castle(king_side) {
            seq![
                BitMove::spec_encode(
                    self.king_square(self.side),
                    self.castling_target(king_side),
                    PieceType::spec_of(self.side, 5),
                    PieceType::Null,
                    self.castling_flag(king_side),
                ),
            ]
        } else {
            Seq::empty()
        }
    }

    /// The pseudo-legal moves of the side to move, in the order they are generated: the
    /// pawns', the knights', the king's with castling king side and then queen side, the
    /// bishops', the rooks' and the queens'.
    pub open spec fn moves(self) -> Seq<BitMove> {
        let side = self.side;
        self.moves_of(0, self.bb(PieceType::spec_of(side, 0))) + self.moves_of(
            1,
            self.bb(PieceType::spec_of(side, 1)),
        ) + self.moves_from(5, self.king_square(side)) + self.castling_moves(true)
            + self.castling_moves(false) + self.moves_of(2, self.bb(PieceType::spec_of(side, 2)))
            + self.moves_of(3, self.bb(PieceType::spec_of(side, 3))) + self.moves_of(
            4,
            self.bb(PieceType::spec_of(side, 4)),
        )
    }
}

/// One more target: what was written down, the moves for the lowest target, and the moves
/// for the other targets make up the moves for all targets.
pub proof fn lemma_emit_step(
    b: Board,
    emit: Emit,
    piece: PieceType,
    source: Square,
    targets: u64,
    done: Seq<BitMove>,
)
    requires
        targets != 0,
    ensures
        (done + b.emitted(emit, piece, source, Square(lowest(targets) as u8))) + b.emitted_over(
            emit,
            piece,
            source,
            drop_lowest(targets),
        ) == done + b.emitted_over(emit, piece, source, targets),
{
    assert((done + b.emitted(emit, piece, source, Square(lowest(targets) as u8)))
        + b.emitted_over(emit, piece, source, drop_lowest(targets)) =~= done + b.emitted_over(
        emit,
        piece,
        source,
        targets,
    ));
}

/// One more source: what was written down, the moves from the lowest source, and the moves
/// from the other sources make up the moves from all sources.
pub proof fn lemma_source_step(b: Board, role: int, sources: u64, done: Seq<BitMove>)
    requires
        sources != 0,
    ensures
        (done + b.moves_from(role, Square(lowest(sources) as u8))) + b.moves_of(
            role,
            drop_lowest(sources),
        ) == done + b.moves_of(role, sources),
{
    assert((done + b.moves_from(role, Square(lowest(sources) as u8))) + b.moves_of(
        role,
        drop_lowest(sources),
    ) =~= done + b.moves_of(role, sources));
}

/// The pseudo-legal moves of the side to move in `position`, in the order they are
/// generated.
pub fn generate_moves(position: &Position, tables: &MoveMasks) -> (r: MoveList)
    requires
        tables.wf(),
        position.occupancy_ok(),
        position@.bb(PieceType::spec_of(position.side, 5)) != 0,
        position@.moves().len() <= MoveList::CAPACITY,
    ensures
        r.wf(),
        r@ == position@.moves(),
{
    position.generate_moves(tables)
}

/// The first of the six pieces `enemy_piece_types` that stands on `target` in `position`.
pub fn get_target_piece(
    position: &Position,
    enemy_piece_types: [PieceType; 6],
    target: Square,
) -> (r: PieceType)
    requires
        target.is_some(),
        forall|i: int| 0 <= i < 6 ==> (#[trigger] enemy_piece_types[i]).is_piece(),
        exists|i: int|
            0 <= i < 6 && position@.holds(#[trigger] enemy_piece_types[i], target.0 as u64),
    ensures
        r == position@.target_piece(enemy_piece_types@, target),
        r.is_piece(),
{
    position.get_target_piece(enemy_piece_types, target)
}

/// The piece of `enemy_piece_types` on `target` in `position` when `target` is among
/// `enemy_occupancies`, else `Null`.
pub fn get_target_piece_if_any(
    position: &Position,
    enemy_piece_types: [PieceType; 6],
    enemy_occupancies: Bitboard,
    target: Square,
) -> (r: PieceType)
    requires
        target.is_some(),
        forall|i: int| 0 <= i < 6 ==> (#[trigger] enemy_piece_types[i]).is_piece(),
        enemy_occupancies.0 & single(target.0 as u64) != 0 ==> exists|i: int|
            0 <= i < 6 && position@.holds(#[trigger] enemy_piece_types[i], target.0 as u64),
    ensures
        r == position@.target_piece_if_any(enemy_piece_types@, enemy_occupancies.0, target),
{
    position.get_target_piece_if_any(enemy_piece_types, enemy_occupancies, target)
}

} // verus!
