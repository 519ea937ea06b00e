use chess_core::bitboard::Bitboard;
use chess_core::color::Color;
use chess_core::move_init::{generate_bishop_moves_on_the_fly, generate_occupancy_permutation, generate_rook_moves_on_the_fly, init};
use chess_core::move_masks::{get_bishop_mask, get_king_mask, get_knight_mask, get_pawn_capture_mask, get_pawn_quiet_mask, get_queen_mask, get_rook_mask};
use chess_core::square::Square;

#[test]
fn tables_are_built() {
    assert!(init().is_some());
}

#[test]
fn knight_in_the_corner_attacks_two_squares() {
    let tables = init().unwrap();
    // a8 is square 0; its knight reaches b6 (17) and c7 (10).
    assert_eq!(get_knight_mask(&tables, Square(0)).0, (1u64 << 17) | (1u64 << 10));
}

#[test]
fn king_in_the_middle_attacks_eight_squares() {
    let tables = init().unwrap();
    let expected = (1u64 << 26) | (1u64 << 27) | (1u64 << 28) | (1u64 << 34) | (1u64 << 36)
        | (1u64 << 42) | (1u64 << 43) | (1u64 << 44);
    assert_eq!(get_king_mask(&tables, Square(35)).0, expected);
}

#[test]
fn pawn_masks_follow_the_colour() {
    let tables = init().unwrap();
    // e2 is square 52.
    assert_eq!(get_pawn_quiet_mask(&tables, Color::White, Square(52)).0, (1u64 << 44) | (1u64 << 36));
    assert_eq!(get_pawn_quiet_mask(&tables, Color::Black, Square(52)).0, 1u64 << 60);
    assert_eq!(get_pawn_capture_mask(&tables, Color::White, Square(52)).0, (1u64 << 43) | (1u64 << 45));
    // a7 is square 8: no capture to the left.
    assert_eq!(get_pawn_capture_mask(&tables, Color::Black, Square(8)).0, 1u64 << 17);
}

#[test]
fn slider_lookup_agrees_with_the_walk() {
    let tables = init().unwrap();
    let occupancy = Bitboard(0x00FF_0000_1824_FF00);
    let mut index: u8 = 0;
    while index < 64 {
        let square = Square(index);
        let others = Bitboard(occupancy.0 & !(1u64 << index));
        assert_eq!(get_bishop_mask(&tables, square, occupancy), generate_bishop_moves_on_the_fly(square, others));
        assert_eq!(get_rook_mask(&tables, square, occupancy), generate_rook_moves_on_the_fly(square, others));
        assert_eq!(
            get_queen_mask(&tables, square, occupancy).0,
            get_bishop_mask(&tables, square, occupancy).0 | get_rook_mask(&tables, square, occupancy).0
        );
        index += 1;
    }
}

#[test]
fn rook_walk_stops_at_the_first_blocker() {
    // A rook on a1 (56) with blockers on a4 (32) and d1 (59).
    let blockers = Bitboard((1u64 << 32) | (1u64 << 59));
    let expected = (1u64 << 48) | (1u64 << 40) | (1u64 << 32) | (1u64 << 57) | (1u64 << 58) | (1u64 << 59);
    assert_eq!(generate_rook_moves_on_the_fly(Square(56), blockers).0, expected);
}

#[test]
fn occupancy_permutation_picks_by_index() {
    let mask = Bitboard(0b1011_0100);
    assert_eq!(generate_occupancy_permutation(0, 4, mask).0, 0);
    assert_eq!(generate_occupancy_permutation(0b0101, 4, mask).0, 0b0010_0100);
    assert_eq!(generate_occupancy_permutation(0b1111, 4, mask).0, 0b1011_0100);
}

#[test]
fn attacks_are_mutual_for_every_piece() {
    let tables = init().unwrap();
    let occupancy = Bitboard(0x0042_1800_2400_8100);
    let mut s: u8 = 0;
    while s < 64 {
        let mut t: u8 = 0;
        while t < 64 {
            let from = Square(s);
            let to = Square(t);
            assert_eq!(
                get_knight_mask(&tables, from).is_set_sq(to),
                get_knight_mask(&tables, to).is_set_sq(from)
            );
            assert_eq!(
                get_king_mask(&tables, from).is_set_sq(to),
                get_king_mask(&tables, to).is_set_sq(from)
            );
            assert_eq!(
                get_bishop_mask(&tables, from, occupancy).is_set_sq(to),
                get_bishop_mask(&tables, to, occupancy).is_set_sq(from)
            );
            assert_eq!(
                get_rook_mask(&tables, from, occupancy).is_set_sq(to),
                get_rook_mask(&tables, to, occupancy).is_set_sq(from)
            );
            assert_eq!(
                get_queen_mask(&tables, from, occupancy).is_set_sq(to),
                get_queen_mask(&tables, to, occupancy).is_set_sq(from)
            );
            assert_eq!(
                get_pawn_capture_mask(&tables, Color::White, from).is_set_sq(to),
                get_pawn_capture_mask(&tables, Color::Black, to).is_set_sq(from)
            );
            t += 1;
        }
        s += 1;
    }
}

#[test]
fn building_the_tables_twice_gives_the_same_tables() {
    let first = init().unwrap();
    let second = init().unwrap();
    assert_eq!(first.knight_masks, second.knight_masks);
    assert_eq!(first.king_masks, second.king_masks);
    assert_eq!(first.pawn_quiet_masks, second.pawn_quiet_masks);
    assert_eq!(first.pawn_capture_masks, second.pawn_capture_masks);
    assert_eq!(first.bishop_masks, second.bishop_masks);
    assert_eq!(first.rook_masks, second.rook_masks);
    assert_eq!(first.bishop_move_configurations, second.bishop_move_configurations);
    assert_eq!(first.rook_move_configurations, second.rook_move_configurations);
}

#[test]
fn bishop_walk_on_an_empty_board_reaches_the_edges() {
    // A bishop on d4 (35) on an empty board.
    let expected = (1u64 << 26) | (1u64 << 17) | (1u64 << 8)
        | (1u64 << 28) | (1u64 << 21) | (1u64 << 14) | (1u64 << 7)
        | (1u64 << 42) | (1u64 << 49) | (1u64 << 56)
        | (1u64 << 44) | (1u64 << 53) | (1u64 << 62);
    assert_eq!(generate_bishop_moves_on_the_fly(Square(35), Bitboard(0)).0, expected);
    // A blocker on the slider's own square stops every ray at once.
    assert_eq!(generate_bishop_moves_on_the_fly(Square(35), Bitboard(1u64 << 35)).0, 0);
    assert_eq!(generate_rook_moves_on_the_fly(Square(35), Bitboard(1u64 << 35)).0, 0);
    // The lookup does not count the slider's own square.
    let tables = init().unwrap();
    assert_eq!(get_bishop_mask(&tables, Square(35), Bitboard(1u64 << 35)).0, expected);
}
