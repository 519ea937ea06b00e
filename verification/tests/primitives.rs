use chess_core::bit_move::{BitMove, MoveFlag};
use chess_core::bitboard::Bitboard;
use chess_core::castling_rights::CastlingRights;
use chess_core::color::Color;
use chess_core::direction::Direction;
use chess_core::file::File;
use chess_core::move_init::{generate_bishop_mask, generate_king_mask, generate_knight_mask, generate_pawn_capture_mask, generate_pawn_quiet_mask, generate_rook_mask};
use chess_core::magic_bitboards::{BISHOP_RELEVANT_BITS, ROOK_RELEVANT_BITS};
use chess_core::move_list::MoveList;
use chess_core::piece::PieceType;
use chess_core::rank::Rank;
use chess_core::square::Square;

#[test]
fn color_switches_and_has_an_opposite() {
    let mut side = Color::White;
    assert_eq!(side.opposite(), Color::Black);
    side.switch();
    assert_eq!(side, Color::Black);
    assert_eq!(side.opposite(), Color::White);
    side.switch();
    assert_eq!(side, Color::White);
    assert_eq!(Color::White.index(), 0);
    assert_eq!(Color::Black.index(), 1);
}

#[test]
fn square_knows_its_rank_and_file() {
    // Square 0 is a8, square 63 is h1.
    assert_eq!(Square(0).rank(), Rank::R8);
    assert_eq!(Square(0).file(), File::FA);
    assert_eq!(Square(63).rank(), Rank::R1);
    assert_eq!(Square(63).file(), File::FH);
    assert_eq!(Square(52).rank(), Rank::R2);
    assert_eq!(Square(52).file(), File::FE);
    assert_eq!(Square(36).above(), Square(28));
    assert_eq!(Square(36).below(), Square(44));
    assert_eq!(Square(36).to_bb().0, 1u64 << 36);
    assert!(!Square::none().is_square());
    assert!(Square::from(17).is_square());
    assert_eq!(Square(Square::E1).index(), 60);
}

#[test]
fn file_and_rank_go_by_number() {
    assert_eq!(File::from(0), File::FA);
    assert_eq!(File::from(7), File::FH);
    assert_eq!(File::FC.index(), 2);
    assert_eq!(Rank::from(0), Rank::R8);
    assert_eq!(Rank::from(7), Rank::R1);
    assert_eq!(Rank::R3.index(), 5);
}

#[test]
fn piece_has_a_number_and_a_colour() {
    assert_eq!(PieceType::WP.index(), 0);
    assert_eq!(PieceType::BK.index(), 11);
    assert_eq!(PieceType::Null.index(), 12);
    assert_eq!(PieceType::from_index(7), PieceType::BN);
    assert_eq!(PieceType::from_index(15), PieceType::Null);
    assert_eq!(PieceType::WQ.color(), Color::White);
    assert_eq!(PieceType::BP.color(), Color::Black);
    assert_eq!(PieceType::WHITE_PIECES[5], PieceType::WK);
    assert_eq!(PieceType::BLACK_PIECES[0], PieceType::BP);
}

#[test]
fn bitboard_operations() {
    let a = Bitboard(0b1010);
    let b = Bitboard(0b0110);
    assert_eq!(a.union(b).0, 0b1110);
    assert_eq!(a.intersect(b).0, 0b0010);
    assert_eq!(a.complement().0, !0b1010u64);
    assert!(Bitboard::empty().is_empty());
    assert!(a.is_not_empty());
    assert!(a.is_set_sq(Square(1)));
    assert!(!a.is_set_sq(Square(2)));
    let mut c = a;
    c.set_sq(Square(63));
    assert_eq!(c.0, 0b1010 | (1u64 << 63));
    c.pop_sq(Square(1));
    assert_eq!(c.0, 0b1000 | (1u64 << 63));
    assert_eq!(c.to_sq(), Square(3));
    assert_eq!(c.pop_lsb(), Square(3));
    assert_eq!(c.0, 1u64 << 63);
    assert_eq!(c.pop_lsb(), Square(63));
    assert!(c.is_empty());
    assert_eq!(c.to_sq(), Square(64));
    assert_eq!(Bitboard(0xFF00FF).count_bits(), 16);
    assert_eq!(Bitboard(u64::MAX).count_bits(), 64);
    assert_eq!(Bitboard(0).count_bits(), 0);
    assert_eq!(Bitboard(1u64 << 20).shift_upwards(8).0, 1u64 << 12);
    assert_eq!(Bitboard(1u64 << 20).shift_downwards(8).0, 1u64 << 28);
    assert_eq!(Bitboard(1).shift_upwards(1).0, 0);
}

#[test]
fn bitboard_constants_name_the_right_squares() {
    assert_eq!(Bitboard::FILE_A & (1u64 << 56), 1u64 << 56);
    assert_eq!(Bitboard::FILE_H & (1u64 << 7), 1u64 << 7);
    assert_eq!(Bitboard::RANK_8, 0xFF);
    assert_eq!(Bitboard::RANK_1, 0xFFu64 << 56);
    assert_eq!(Bitboard::W_KING_SIDE_MASK, (1u64 << 61) | (1u64 << 62));
    assert_eq!(Bitboard::W_QUEEN_SIDE_MASK, (1u64 << 57) | (1u64 << 58) | (1u64 << 59));
    assert_eq!(Bitboard::B_KING_SIDE_MASK, (1u64 << 5) | (1u64 << 6));
    assert_eq!(Bitboard::B_QUEEN_SIDE_MASK, (1u64 << 1) | (1u64 << 2) | (1u64 << 3));
    assert_eq!(
        Bitboard::WP | Bitboard::WN | Bitboard::WB | Bitboard::WR | Bitboard::WQ | Bitboard::WK,
        Bitboard::WHITE_STARTING_PIECES
    );
    assert_eq!(
        Bitboard::BP | Bitboard::BN | Bitboard::BB | Bitboard::BR | Bitboard::BQ | Bitboard::BK,
        Bitboard::BLACK_STARTING_PIECES
    );
    assert_eq!(
        Bitboard::FILE_A | Bitboard::FILE_B | Bitboard::FILE_C | Bitboard::FILE_D | Bitboard::FILE_E
            | Bitboard::FILE_F | Bitboard::FILE_G | Bitboard::FILE_H,
        u64::MAX
    );
    assert_eq!(
        Bitboard::RANK_1 | Bitboard::RANK_2 | Bitboard::RANK_3 | Bitboard::RANK_4 | Bitboard::RANK_5
            | Bitboard::RANK_6 | Bitboard::RANK_7 | Bitboard::RANK_8,
        u64::MAX
    );
}

#[test]
fn move_fields_come_back_from_the_packed_word() {
    let bit_move = BitMove::encode(Square(52), Square(36), PieceType::WP, PieceType::Null, MoveFlag::WDoublePawn);
    assert_eq!(bit_move.0, 52 + 36 * 64 + 0 * 4096 + 12 * 65536 + 1 * 1048576);
    assert_eq!(
        bit_move.decode(),
        (Square(52), Square(36), PieceType::WP, PieceType::Null, MoveFlag::WDoublePawn)
    );
    let capture = BitMove::encode(Square(63), Square(0), PieceType::BK, PieceType::WQ, MoveFlag::PromoQ);
    assert_eq!(
        capture.decode(),
        (Square(63), Square(0), PieceType::BK, PieceType::WQ, MoveFlag::PromoQ)
    );
    assert_eq!(MoveFlag::from_index(5), MoveFlag::WKCastle);
    assert_eq!(MoveFlag::BQCastle.index(), 8);
    assert_eq!(MoveFlag::from_index(14), MoveFlag::Null);
}

#[test]
fn move_list_keeps_insertion_order() {
    let mut list = MoveList::new();
    assert!(list.is_empty());
    let mut i: u8 = 0;
    while i < 64 {
        list.add(BitMove::encode(Square(i), Square(63 - i), PieceType::WN, PieceType::Null, MoveFlag::Null));
        i += 1;
    }
    assert_eq!(list.len(), 64);
    assert_eq!(list.get(0).decode().0, Square(0));
    assert_eq!(list.get(63).decode().0, Square(63));
    assert_eq!(list.get(10).decode().1, Square(53));
    assert_eq!(MoveList::default().len(), 0);
    assert_eq!(MoveList::CAPACITY, 256);
}

#[test]
fn move_list_holds_its_full_capacity() {
    let mut list = MoveList::new();
    let mut i: usize = 0;
    while i < 256 {
        list.add(BitMove((i as u32) % 64));
        i += 1;
    }
    assert_eq!(list.len(), 256);
    assert_eq!(list.get(255), BitMove(63));
}

#[test]
fn castling_rights_follow_the_home_squares() {
    let mut rights = CastlingRights::all();
    assert!(rights.wk() && rights.wq() && rights.bk() && rights.bq());
    // A move from h1 ends White's king-side right.
    rights.update(Square(63), Square(55));
    assert!(!rights.wk() && rights.wq() && rights.bk() && rights.bq());
    // A move to a8 ends Black's queen-side right.
    rights.update(Square(8), Square(0));
    assert!(!rights.bq() && rights.bk());
    // A move from e8 ends both of Black's rights.
    rights.update(Square(4), Square(12));
    assert!(!rights.bk() && !rights.bq() && rights.wq());
    // A move from e1 ends both of White's rights.
    rights.update(Square(60), Square(61));
    assert_eq!(rights.data, 0);
    // A move between other squares ends none.
    let mut rights = CastlingRights::all();
    rights.update(Square(52), Square(36));
    assert_eq!(rights.data, 0b1111);
    rights.update(Square(20), Square(56));
    assert_eq!(rights.data, 0b1101);
    rights.update(Square(20), Square(7));
    assert_eq!(rights.data, 0b1001);
    assert_eq!(CastlingRights::none().data, 0);
}

#[test]
fn mask_sizes_match_the_relevant_bits() {
    let mut index: u8 = 0;
    while index < 64 {
        let square = Square(index);
        assert_eq!(generate_bishop_mask(square).count_bits(), BISHOP_RELEVANT_BITS[index as usize]);
        assert_eq!(generate_rook_mask(square).count_bits(), ROOK_RELEVANT_BITS[index as usize]);
        index += 1;
    }
}

#[test]
fn slider_masks_leave_out_the_ends_of_the_rays() {
    // A rook on a1 (56): a2..a7 and b1..g1.
    let expected = (1u64 << 48) | (1u64 << 40) | (1u64 << 32) | (1u64 << 24) | (1u64 << 16) | (1u64 << 8)
        | (1u64 << 57) | (1u64 << 58) | (1u64 << 59) | (1u64 << 60) | (1u64 << 61) | (1u64 << 62);
    assert_eq!(generate_rook_mask(Square(56)).0, expected);
    // A bishop on a1 (56): b2..g7.
    let expected = (1u64 << 49) | (1u64 << 42) | (1u64 << 35) | (1u64 << 28) | (1u64 << 21) | (1u64 << 14);
    assert_eq!(generate_bishop_mask(Square(56)).0, expected);
}

#[test]
fn leaper_masks_do_not_wrap_around_the_board() {
    // A knight on h1 (63) reaches f2 (53) and g3 (46) only.
    assert_eq!(generate_knight_mask(Square(63)).0, (1u64 << 53) | (1u64 << 46));
    // A king on a8 (0) reaches b8, a7, b7.
    assert_eq!(generate_king_mask(Square(0)).0, (1u64 << 1) | (1u64 << 8) | (1u64 << 9));
    // A white pawn on h2 (55) attacks g3 (46) only; a black pawn on a7 (8) attacks b6 (17).
    assert_eq!(generate_pawn_capture_mask(Color::White, Square(55)).0, 1u64 << 46);
    assert_eq!(generate_pawn_capture_mask(Color::Black, Square(8)).0, 1u64 << 17);
    // Pushes: a white pawn on a8 has none; a black pawn on e7 (12) has two.
    assert_eq!(generate_pawn_quiet_mask(Color::White, Square(0)).0, 0);
    assert_eq!(generate_pawn_quiet_mask(Color::Black, Square(12)).0, (1u64 << 20) | (1u64 << 28));
    assert_eq!(generate_pawn_quiet_mask(Color::White, Square(44)).0, 1u64 << 36);
}

#[test]
fn pawn_captures_are_symmetric_between_the_colours() {
    let mut s: u8 = 0;
    while s < 64 {
        let mut t: u8 = 0;
        while t < 64 {
            let forward = generate_pawn_capture_mask(Color::White, Square(s)).0 & (1u64 << t) != 0;
            let backward = generate_pawn_capture_mask(Color::Black, Square(t)).0 & (1u64 << s) != 0;
            assert_eq!(forward, backward);
            t += 1;
        }
        s += 1;
    }
}

#[test]
fn direction_steps_and_edges() {
    let seeker = Bitboard(1u64 << 27);
    assert_eq!(Direction::Up.step(seeker).0, 1u64 << 19);
    assert_eq!(Direction::DownRight.step(seeker).0, 1u64 << 36);
    assert_eq!(Direction::Left.step(seeker).0, 1u64 << 26);
    assert_eq!(Direction::UpLeft.edge().0, Bitboard::RANK_8 | Bitboard::FILE_A);
    assert_eq!(Direction::Down.edge().0, Bitboard::RANK_1);
}
