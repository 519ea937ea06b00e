use chess_core::bit_move::{BitMove, MoveFlag};
use chess_core::bitboard::Bitboard;
use chess_core::castling_rights::CastlingRights;
use chess_core::color::Color;
use chess_core::move_init::init;
use chess_core::move_list::MoveList;
use chess_core::move_masks::MoveMasks;
use chess_core::piece::PieceType;
use chess_core::position::Position;
use chess_core::square::Square;

fn piece_of(c: char) -> PieceType {
    match c {
        'P' => PieceType::WP,
        'N' => PieceType::WN,
        'B' => PieceType::WB,
        'R' => PieceType::WR,
        'Q' => PieceType::WQ,
        'K' => PieceType::WK,
        'p' => PieceType::BP,
        'n' => PieceType::BN,
        'b' => PieceType::BB,
        'r' => PieceType::BR,
        'q' => PieceType::BQ,
        'k' => PieceType::BK,
        _ => panic!("not a piece"),
    }
}

fn position_from(placement: &str, side: Color, rights: u8, en_passant: u8) -> Position {
    let mut position = Position {
        bbs: [Bitboard(0); 12],
        wo: Bitboard(0),
        bo: Bitboard(0),
        ao: Bitboard(0),
        side,
        en_passant_sq: Square(en_passant),
        castling_rights: CastlingRights { data: rights },
    };
    let mut index: u8 = 0;
    for c in placement.chars() {
        if c == '/' {
            continue;
        }
        if let Some(skip) = c.to_digit(10) {
            index += skip as u8;
        } else {
            position.set_piece(piece_of(c), Square(index));
            index += 1;
        }
    }
    assert_eq!(index, 64);
    position.populate_occupancies();
    position
}

fn moves_of(list: &MoveList) -> Vec<BitMove> {
    let mut moves = Vec::new();
    let mut i = 0;
    while i < list.len() {
        moves.push(list.get(i));
        i += 1;
    }
    moves
}

fn check_invariants(position: &Position) {
    let mut union = 0u64;
    let mut i = 0;
    while i < 12 {
        let mut j = i + 1;
        while j < 12 {
            assert_eq!(position.bbs[i].0 & position.bbs[j].0, 0);
            j += 1;
        }
        union |= position.bbs[i].0;
        i += 1;
    }
    let white = position.bbs[0].0 | position.bbs[1].0 | position.bbs[2].0 | position.bbs[3].0
        | position.bbs[4].0 | position.bbs[5].0;
    let black = position.bbs[6].0 | position.bbs[7].0 | position.bbs[8].0 | position.bbs[9].0
        | position.bbs[10].0 | position.bbs[11].0;
    assert_eq!(position.wo.0, white);
    assert_eq!(position.bo.0, black);
    assert_eq!(position.ao.0, white | black);
    assert_eq!(position.ao.0, union);
    assert_eq!(position.bbs[5].count_bits(), 1);
    assert_eq!(position.bbs[11].count_bits(), 1);
    let en_passant = position.en_passant_sq.0;
    assert!(en_passant <= 64);
    if en_passant < 64 {
        match position.side {
            Color::White => assert_eq!(en_passant / 8, 2),
            Color::Black => assert_eq!(en_passant / 8, 5),
        }
        assert_eq!(position.ao.0 & (1u64 << en_passant), 0);
    }
}

fn walk(position: &Position, tables: &MoveMasks, depth: u32) -> u64 {
    check_invariants(position);
    if depth == 0 {
        return 1;
    }
    let list = position.generate_moves(tables);
    let mut nodes = 0;
    for bit_move in moves_of(&list) {
        let mut next = *position;
        let rights = next.castling_rights;
        if next.make_move(bit_move, tables) {
            nodes += walk(&next, tables, depth - 1);
            next.undo_move(bit_move, rights);
            let (_, _, _, _, flag) = bit_move.decode();
            let keeps_en_passant = position.en_passant_sq.0 == 64
                || flag == MoveFlag::WEnPassant
                || flag == MoveFlag::BEnPassant;
            if keeps_en_passant {
                assert_eq!(next, *position);
            } else {
                let mut expected = *position;
                expected.en_passant_sq = Square(64);
                assert_eq!(next, expected);
            }
        } else {
            let mut expected = *position;
            let (_, _, _, _, flag) = bit_move.decode();
            if flag != MoveFlag::WEnPassant && flag != MoveFlag::BEnPassant {
                expected.en_passant_sq = Square(64);
            }
            assert_eq!(next, expected);
        }
    }
    nodes
}

#[test]
fn starting_position_is_well_formed() {
    let position = Position::starting_position();
    check_invariants(&position);
    assert_eq!(position.side, Color::White);
    assert_eq!(position.en_passant_sq.0, 64);
    assert_eq!(position.castling_rights.data, 0b1111);
    assert_eq!(position.bbs[5].0, 1u64 << 60);
    assert_eq!(position.bbs[11].0, 1u64 << 4);
}

#[test]
fn default_position_is_empty() {
    let position = Position::default();
    assert_eq!(position.ao.0, 0);
    assert_eq!(position.side, Color::White);
    assert_eq!(position.en_passant_sq.0, 64);
    assert_eq!(position.castling_rights.data, 0);
}

#[test]
fn invariants_and_round_trip_hold_along_the_start_tree() {
    let tables = init().unwrap();
    assert_eq!(walk(&Position::starting_position(), &tables, 3), 8_902);
}

#[test]
fn invariants_and_round_trip_hold_along_the_kiwipete_tree() {
    let tables = init().unwrap();
    let position = position_from(
        "r3k2r/p1ppqpb1/bn2pnp1/3PN3/1p2P3/2N2Q1p/PPPBBPPP/R3K2R",
        Color::White,
        0b1111,
        64,
    );
    assert_eq!(walk(&position, &tables, 2), 2_039);
}

#[test]
fn invariants_and_round_trip_hold_along_the_en_passant_tree() {
    let tables = init().unwrap();
    let position = position_from("8/2p5/3p4/KP5r/1R3p1k/8/4P1P1/8", Color::White, 0, 64);
    assert_eq!(walk(&position, &tables, 3), 2_812);
}

#[test]
fn double_push_sets_the_en_passant_square_behind_the_pawn() {
    let tables = init().unwrap();
    let mut position = Position::starting_position();
    // e2 (52) to e4 (36).
    let bit_move = BitMove::encode(Square(52), Square(36), PieceType::WP, PieceType::Null, MoveFlag::WDoublePawn);
    assert!(position.make_move(bit_move, &tables));
    assert_eq!(position.en_passant_sq.0, 44);
    assert_eq!(position.side, Color::Black);
    assert_eq!(position.bbs[0].0, (0x00FF_0000_0000_0000u64 & !(1u64 << 52)) | (1u64 << 36));
    check_invariants(&position);
    // e7 (12) to e5 (28).
    let reply = BitMove::encode(Square(12), Square(28), PieceType::BP, PieceType::Null, MoveFlag::BDoublePawn);
    assert!(position.make_move(reply, &tables));
    assert_eq!(position.en_passant_sq.0, 20);
    assert_eq!(position.side, Color::White);
    check_invariants(&position);
}

#[test]
fn en_passant_capture_removes_the_passed_pawn_and_comes_back() {
    let tables = init().unwrap();
    // White pawn on e5 (28), Black pawn has just gone d7-d5 (27); en-passant square d6 (19).
    let position = position_from("4k3/8/8/3pP3/8/8/8/4K3", Color::White, 0, 19);
    let list = position.generate_moves(&tables);
    let expected = BitMove::encode(Square(28), Square(19), PieceType::WP, PieceType::Null, MoveFlag::WEnPassant);
    assert!(moves_of(&list).contains(&expected));
    let mut next = position;
    let rights = next.castling_rights;
    assert!(next.make_move(expected, &tables));
    assert_eq!(next.bbs[6].0, 0);
    assert_eq!(next.bbs[0].0, 1u64 << 19);
    assert_eq!(next.en_passant_sq.0, 64);
    next.undo_move(expected, rights);
    assert_eq!(next, position);
}

#[test]
fn taking_back_another_move_loses_the_en_passant_square() {
    let tables = init().unwrap();
    let position = position_from("4k3/8/8/3pP3/8/8/8/4K3", Color::White, 0, 19);
    // The king steps from e1 (60) to d1 (59).
    let bit_move = BitMove::encode(Square(60), Square(59), PieceType::WK, PieceType::Null, MoveFlag::Null);
    let mut next = position;
    let rights = next.castling_rights;
    assert!(next.make_move(bit_move, &tables));
    next.undo_move(bit_move, rights);
    let mut expected = position;
    expected.en_passant_sq = Square(64);
    assert_eq!(next, expected);
}

#[test]
fn promotion_generates_four_moves_and_leaves_no_residue() {
    let tables = init().unwrap();
    // White pawn on a7 (8), kings on e1 and e8.
    let position = position_from("4k3/P7/8/8/8/8/8/4K3", Color::White, 0, 64);
    let list = position.generate_moves(&tables);
    let promotions: Vec<BitMove> = moves_of(&list)
        .into_iter()
        .filter(|m| m.decode().0 == Square(8))
        .collect();
    assert_eq!(
        promotions,
        vec![
            BitMove::encode(Square(8), Square(0), PieceType::WP, PieceType::Null, MoveFlag::PromoN),
            BitMove::encode(Square(8), Square(0), PieceType::WP, PieceType::Null, MoveFlag::PromoB),
            BitMove::encode(Square(8), Square(0), PieceType::WP, PieceType::Null, MoveFlag::PromoR),
            BitMove::encode(Square(8), Square(0), PieceType::WP, PieceType::Null, MoveFlag::PromoQ),
        ]
    );
    let promoted = [PieceType::WN, PieceType::WB, PieceType::WR, PieceType::WQ];
    for (bit_move, piece) in promotions.iter().zip(promoted.iter()) {
        let mut next = position;
        let rights = next.castling_rights;
        assert!(next.make_move(*bit_move, &tables));
        assert_eq!(next.bbs[0].0, 0);
        assert_eq!(next.bbs[piece.index()].0, 1u64);
        check_invariants(&next);
        next.undo_move(*bit_move, rights);
        assert_eq!(next, position);
    }
}

#[test]
fn promotion_with_capture_takes_the_piece_and_restores_it() {
    let tables = init().unwrap();
    // White pawn on a7 (8), Black rook on b8 (1).
    let position = position_from("1r2k3/P7/8/8/8/8/8/4K3", Color::White, 0, 64);
    let bit_move = BitMove::encode(Square(8), Square(1), PieceType::WP, PieceType::BR, MoveFlag::PromoQ);
    assert!(moves_of(&position.generate_moves(&tables)).contains(&bit_move));
    let mut next = position;
    let rights = next.castling_rights;
    assert!(next.make_move(bit_move, &tables));
    assert_eq!(next.bbs[PieceType::WQ.index()].0, 1u64 << 1);
    assert_eq!(next.bbs[PieceType::BR.index()].0, 0);
    assert_eq!(next.bbs[PieceType::WP.index()].0, 0);
    next.undo_move(bit_move, rights);
    assert_eq!(next, position);
}

#[test]
fn castling_is_blocked_when_the_king_is_attacked() {
    let tables = init().unwrap();
    let position = position_from("4k3/8/8/8/8/8/4r3/R3K2R", Color::White, 0b0011, 64);
    let moves = moves_of(&position.generate_moves(&tables));
    for bit_move in moves.iter() {
        let (_, _, _, _, flag) = bit_move.decode();
        assert_ne!(flag, MoveFlag::WKCastle);
        assert_ne!(flag, MoveFlag::WQCastle);
    }
    // The rooks may still go up their files: a1 (56) to a2 (48), h1 (63) to h2 (55).
    assert!(moves.contains(&BitMove::encode(Square(56), Square(48), PieceType::WR, PieceType::Null, MoveFlag::Null)));
    assert!(moves.contains(&BitMove::encode(Square(63), Square(55), PieceType::WR, PieceType::Null, MoveFlag::Null)));
}

#[test]
fn castling_is_generated_and_moves_the_rook() {
    let tables = init().unwrap();
    let position = position_from("4k3/8/8/8/8/8/8/R3K2R", Color::White, 0b0011, 64);
    let moves = moves_of(&position.generate_moves(&tables));
    let short = BitMove::encode(Square(60), Square(62), PieceType::WK, PieceType::Null, MoveFlag::WKCastle);
    let long = BitMove::encode(Square(60), Square(58), PieceType::WK, PieceType::Null, MoveFlag::WQCastle);
    assert!(moves.contains(&short));
    assert!(moves.contains(&long));

    let mut next = position;
    assert!(next.make_move(short, &tables));
    assert_eq!(next.bbs[PieceType::WK.index()].0, 1u64 << 62);
    assert_eq!(next.bbs[PieceType::WR.index()].0, (1u64 << 56) | (1u64 << 61));
    assert_eq!(next.castling_rights.data, 0);
    next.undo_move(short, position.castling_rights);
    assert_eq!(next, position);

    let mut next = position;
    assert!(next.make_move(long, &tables));
    assert_eq!(next.bbs[PieceType::WK.index()].0, 1u64 << 58);
    assert_eq!(next.bbs[PieceType::WR.index()].0, (1u64 << 59) | (1u64 << 63));
    next.undo_move(long, position.castling_rights);
    assert_eq!(next, position);
}

#[test]
fn queen_side_castling_ignores_an_attack_on_the_b_file() {
    let tables = init().unwrap();
    // A black rook on b8 attacks b1, which the king does not cross.
    let position = position_from("1r2k3/8/8/8/8/8/8/R3K3", Color::White, 0b0010, 64);
    let moves = moves_of(&position.generate_moves(&tables));
    let long = BitMove::encode(Square(60), Square(58), PieceType::WK, PieceType::Null, MoveFlag::WQCastle);
    assert!(moves.contains(&long));
    // With the rook on d8 the king would cross an attacked square.
    let position = position_from("3rk3/8/8/8/8/8/8/R3K3", Color::White, 0b0010, 64);
    let moves = moves_of(&position.generate_moves(&tables));
    assert!(!moves.contains(&long));
}

#[test]
fn black_castles_on_the_eighth_rank() {
    let tables = init().unwrap();
    let position = position_from("r3k2r/8/8/8/8/8/8/4K3", Color::Black, 0b1100, 64);
    let moves = moves_of(&position.generate_moves(&tables));
    let short = BitMove::encode(Square(4), Square(6), PieceType::BK, PieceType::Null, MoveFlag::BKCastle);
    let long = BitMove::encode(Square(4), Square(2), PieceType::BK, PieceType::Null, MoveFlag::BQCastle);
    assert!(moves.contains(&short));
    assert!(moves.contains(&long));
    let mut next = position;
    assert!(next.make_move(long, &tables));
    assert_eq!(next.bbs[PieceType::BR.index()].0, (1u64 << 3) | (1u64 << 7));
    assert_eq!(next.bbs[PieceType::BK.index()].0, 1u64 << 2);
}

#[test]
fn a_move_that_leaves_the_king_attacked_is_turned_down() {
    let tables = init().unwrap();
    // The white bishop on e2 is pinned by the rook on e8.
    let position = position_from("4r1k1/8/8/8/8/8/4B3/4K3", Color::White, 0, 64);
    let pinned = BitMove::encode(Square(52), Square(43), PieceType::WB, PieceType::Null, MoveFlag::Null);
    assert!(moves_of(&position.generate_moves(&tables)).contains(&pinned));
    let mut next = position;
    assert!(!next.make_move(pinned, &tables));
    assert_eq!(next, position);
    // The king may step aside.
    let aside = BitMove::encode(Square(60), Square(59), PieceType::WK, PieceType::Null, MoveFlag::Null);
    assert!(next.make_move(aside, &tables));
    assert_eq!(next.side, Color::Black);
}

#[test]
fn double_push_needs_both_squares_empty() {
    let tables = init().unwrap();
    // A knight on e3 (44) blocks the pawn on e2 (52); one on d4 (35) blocks only the jump.
    let position = position_from("4k3/8/8/8/3n4/4n3/3PP3/4K3", Color::White, 0, 64);
    let moves = moves_of(&position.generate_moves(&tables));
    let from_e2: Vec<&BitMove> = moves.iter().filter(|m| m.decode().0 == Square(52)).collect();
    assert!(from_e2.is_empty());
    let from_d2: Vec<BitMove> = moves.iter().filter(|m| m.decode().0 == Square(51)).cloned().collect();
    assert_eq!(
        from_d2,
        vec![
            BitMove::encode(Square(51), Square(44), PieceType::WP, PieceType::BN, MoveFlag::Null),
            BitMove::encode(Square(51), Square(43), PieceType::WP, PieceType::Null, MoveFlag::Null),
        ]
    );
}

#[test]
fn moves_come_in_the_order_pawns_knights_king_bishops_rooks_queens() {
    let tables = init().unwrap();
    let moves = moves_of(&Position::starting_position().generate_moves(&tables));
    assert_eq!(moves.len(), 20);
    let pieces: Vec<PieceType> = moves.iter().map(|m| m.decode().2).collect();
    assert!(pieces[..16].iter().all(|p| *p == PieceType::WP));
    assert!(pieces[16..].iter().all(|p| *p == PieceType::WN));
    // The lowest pawn is a2 (48): its single push comes before its double push.
    assert_eq!(moves[0], BitMove::encode(Square(48), Square(32), PieceType::WP, PieceType::Null, MoveFlag::WDoublePawn));
    assert_eq!(moves[1], BitMove::encode(Square(48), Square(40), PieceType::WP, PieceType::Null, MoveFlag::Null));
}

#[test]
fn attack_detection_sees_each_piece() {
    let tables = init().unwrap();
    let position = position_from("4k3/8/8/3p4/8/2N5/8/R3K2B", Color::White, 0, 64);
    let white = PieceType::WHITE_PIECES;
    let black = PieceType::BLACK_PIECES;
    // The black pawn on d5 (27) attacks c4 (34) and e4 (36).
    assert!(position.is_square_attacked(&tables, Square(34), Color::White, &black));
    assert!(position.is_square_attacked(&tables, Square(36), Color::White, &black));
    assert!(!position.is_square_attacked(&tables, Square(35), Color::White, &black));
    // The white knight on c3 (42) attacks d5 (27); the rook on a1 attacks a8 (0).
    assert!(position.is_square_attacked(&tables, Square(27), Color::Black, &white));
    assert!(position.is_square_attacked(&tables, Square(0), Color::Black, &white));
    // The bishop on h1 (63) sees up to d5 (27), where the pawn blocks it: c6 (18) is safe
    // from it but b5 (25) is hit by the knight.
    assert!(!position.is_square_attacked(&tables, Square(18), Color::Black, &white));
    assert!(position.is_square_attacked(&tables, Square(25), Color::Black, &white));
    // The king on e1 (60) attacks d2 (51).
    assert!(position.is_square_attacked(&tables, Square(51), Color::Black, &white));
    // The black king on e8 (4) attacks d7 (11).
    assert!(position.is_square_attacked(&tables, Square(11), Color::White, &black));
}

#[test]
fn capture_of_a_rook_at_home_ends_its_castling_right() {
    let tables = init().unwrap();
    // The white bishop on b2 (49) takes the rook on h8 (7).
    let position = position_from("r3k2r/8/8/8/8/8/1B6/4K3", Color::White, 0b1100, 64);
    let bit_move = BitMove::encode(Square(49), Square(7), PieceType::WB, PieceType::BR, MoveFlag::Null);
    assert!(moves_of(&position.generate_moves(&tables)).contains(&bit_move));
    let mut next = position;
    assert!(next.make_move(bit_move, &tables));
    assert!(!next.castling_rights.bk());
    assert!(next.castling_rights.bq());
    next.undo_move(bit_move, position.castling_rights);
    assert_eq!(next, position);
}

#[test]
fn target_piece_is_found_in_canonical_order() {
    let position = Position::starting_position();
    assert_eq!(position.get_target_piece(PieceType::BLACK_PIECES, Square(0)), PieceType::BR);
    assert_eq!(position.get_target_piece(PieceType::WHITE_PIECES, Square(60)), PieceType::WK);
    assert_eq!(
        position.get_target_piece_if_any(PieceType::BLACK_PIECES, position.bo, Square(12)),
        PieceType::BP
    );
    assert_eq!(
        position.get_target_piece_if_any(PieceType::BLACK_PIECES, position.bo, Square(30)),
        PieceType::Null
    );
}

#[test]
fn set_and_remove_touch_one_board_only() {
    let mut position = Position::default();
    position.set_piece(PieceType::WQ, Square(27));
    assert_eq!(position.bbs[PieceType::WQ.index()].0, 1u64 << 27);
    assert_eq!(position.ao.0, 0);
    position.populate_occupancies();
    assert_eq!(position.wo.0, 1u64 << 27);
    assert_eq!(position.ao.0, 1u64 << 27);
    position.remove_piece(PieceType::WQ, Square(27));
    assert_eq!(position.bbs[PieceType::WQ.index()].0, 0);
    position.wo = Bitboard(3);
    position.bo = Bitboard(12);
    position.merge_occupancies();
    assert_eq!(position.ao.0, 15);
}

#[test]
fn counting_agrees_with_generating() {
    let tables = init().unwrap();
    let start = Position::starting_position();
    assert_eq!(start.count_moves(&tables), 20);
    let kiwipete = position_from(
        "r3k2r/p1ppqpb1/bn2pnp1/3PN3/1p2P3/2N2Q1p/PPPBBPPP/R3K2R",
        Color::White,
        0b1111,
        64,
    );
    assert_eq!(kiwipete.count_moves(&tables), 48);
    assert_eq!(kiwipete.try_generate_moves(&tables).unwrap().len(), 48);
    let promotion = position_from("1r2k3/P7/8/8/8/8/8/4K3", Color::White, 0, 64);
    // Four promotions by push, four by capture, five king moves.
    assert_eq!(promotion.count_moves(&tables), 13);
    assert_eq!(moves_of(&promotion.generate_moves(&tables)).len(), 13);
}

#[test]
fn generation_gives_nothing_without_a_king_or_without_room() {
    let tables = init().unwrap();
    let no_king = position_from("4k3/8/8/8/8/8/8/8", Color::White, 0, 64);
    assert!(no_king.try_generate_moves(&tables).is_none());
    // A ring of white queens has more moves than a list holds.
    let crowded = position_from(
        "QQQQQQQQ/Q6Q/Q6Q/Q6Q/Q6Q/Q2Q3Q/Q6Q/QKQkQQQQ",
        Color::White,
        0,
        64,
    );
    assert_eq!(crowded.count_moves(&tables), 274);
    assert!(crowded.try_generate_moves(&tables).is_none());
}

#[test]
fn free_functions_agree_with_the_methods() {
    let tables = init().unwrap();
    let position = Position::starting_position();
    let by_function = chess_core::move_gen::generate_moves(&position, &tables);
    assert_eq!(moves_of(&by_function), moves_of(&position.generate_moves(&tables)));
    assert_eq!(
        chess_core::move_gen::get_target_piece(&position, PieceType::WHITE_PIECES, Square(59)),
        PieceType::WQ
    );
    assert_eq!(
        chess_core::move_gen::get_target_piece_if_any(
            &position,
            PieceType::WHITE_PIECES,
            position.wo,
            Square(35)
        ),
        PieceType::Null
    );
}

#[test]
fn castling_test_matches_the_generated_moves() {
    let tables = init().unwrap();
    let open = position_from("4k3/8/8/8/8/8/8/R3K2R", Color::White, 0b0011, 64);
    assert!(open.may_castle(&tables, true));
    assert!(open.may_castle(&tables, false));
    let attacked = position_from("4k3/8/8/8/8/8/4r3/R3K2R", Color::White, 0b0011, 64);
    assert!(!attacked.may_castle(&tables, true));
    assert!(!attacked.may_castle(&tables, false));
    let blocked = position_from("4k3/8/8/8/8/8/8/RN2K1NR", Color::White, 0b0011, 64);
    assert!(!blocked.may_castle(&tables, true));
    assert!(!blocked.may_castle(&tables, false));
    let no_right = position_from("4k3/8/8/8/8/8/8/R3K2R", Color::White, 0b0001, 64);
    assert!(no_right.may_castle(&tables, true));
    assert!(!no_right.may_castle(&tables, false));
}
