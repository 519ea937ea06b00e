use chess_core::bitboard::Bitboard;
use chess_core::castling_rights::CastlingRights;
use chess_core::color::Color;
use chess_core::move_init::init;
use chess_core::move_masks::MoveMasks;
use chess_core::piece::PieceType;
use chess_core::position::Position;
use chess_core::square::Square;

fn piece_of(c: char) -> PieceType {
    match c {
        'P' => PieceType::WP,
        'N' => PieceType::WN,
        'B' => PieceType::WB,
        'R' => PieceType::WR,
        'Q' => PieceType::WQ,
        'K' => PieceType::WK,
        'p' => PieceType::BP,
        'n' => PieceType::BN,
        'b' => PieceType::BB,
        'r' => PieceType::BR,
        'q' => PieceType::BQ,
        'k' => PieceType::BK,
        _ => panic!("not a piece"),
    }
}

fn position_from(placement: &str, side: Color, rights: u8, en_passant: u8) -> Position {
    let mut position = Position {
        bbs: [Bitboard(0); 12],
        wo: Bitboard(0),
        bo: Bitboard(0),
        ao: Bitboard(0),
        side,
        en_passant_sq: Square(en_passant),
        castling_rights: CastlingRights { data: rights },
    };
    let mut index: u8 = 0;
    for c in placement.chars() {
        if c == '/' {
            continue;
        }
        if let Some(skip) = c.to_digit(10) {
            index += skip as u8;
        } else {
            position.set_piece(piece_of(c), Square(index));
            index += 1;
        }
    }
    assert_eq!(index, 64);
    position.populate_occupancies();
    position
}

fn perft(position: &Position, tables: &MoveMasks, depth: u32) -> u64 {
    if depth == 0 {
        return 1;
    }
    let moves = position.generate_moves(tables);
    let mut nodes = 0;
    let mut i = 0;
    while i < moves.len() {
        let mut next = *position;
        if next.make_move(moves.get(i), tables) {
            nodes += perft(&next, tables, depth - 1);
        }
        i += 1;
    }
    nodes
}

fn kiwipete() -> Position {
    position_from(
        "r3k2r/p1ppqpb1/bn2pnp1/3PN3/1p2P3/2N2Q1p/PPPBBPPP/R3K2R",
        Color::White,
        0b1111,
        64,
    )
}

fn en_passant_heavy() -> Position {
    position_from("8/2p5/3p4/KP5r/1R3p1k/8/4P1P1/8", Color::White, 0, 64)
}

#[test]
fn placement_of_the_start_matches_the_constructor() {
    let built = position_from(
        "rnbqkbnr/pppppppp/8/8/8/8/PPPPPPPP/RNBQKBNR",
        Color::White,
        0b1111,
        64,
    );
    assert_eq!(built, Position::starting_position());
}

#[test]
fn perft_start_depth_1() {
    let tables = init().unwrap();
    assert_eq!(perft(&Position::starting_position(), &tables, 1), 20);
}

#[test]
fn perft_start_depth_2() {
    let tables = init().unwrap();
    assert_eq!(perft(&Position::starting_position(), &tables, 2), 400);
}

#[test]
fn perft_start_depth_3() {
    let tables = init().unwrap();
    assert_eq!(perft(&Position::starting_position(), &tables, 3), 8_902);
}

#[test]
fn perft_start_depth_4() {
    let tables = init().unwrap();
    assert_eq!(perft(&Position::starting_position(), &tables, 4), 197_281);
}

#[test]
fn perft_start_depth_5() {
    let tables = init().unwrap();
    assert_eq!(perft(&Position::starting_position(), &tables, 5), 4_865_609);
}

#[test]
fn perft_kiwipete_depth_1() {
    let tables = init().unwrap();
    assert_eq!(perft(&kiwipete(), &tables, 1), 48);
}

#[test]
fn perft_kiwipete_depth_2() {
    let tables = init().unwrap();
    assert_eq!(perft(&kiwipete(), &tables, 2), 2_039);
}

#[test]
fn perft_kiwipete_depth_3() {
    let tables = init().unwrap();
    assert_eq!(perft(&kiwipete(), &tables, 3), 97_862);
}

#[test]
fn perft_kiwipete_depth_4() {
    let tables = init().unwrap();
    assert_eq!(perft(&kiwipete(), &tables, 4), 4_085_603);
}

#[test]
fn perft_en_passant_heavy_depth_1() {
    let tables = init().unwrap();
    assert_eq!(perft(&en_passant_heavy(), &tables, 1), 14);
}

#[test]
fn perft_en_passant_heavy_depth_2() {
    let tables = init().unwrap();
    assert_eq!(perft(&en_passant_heavy(), &tables, 2), 191);
}

#[test]
fn perft_en_passant_heavy_depth_3() {
    let tables = init().unwrap();
    assert_eq!(perft(&en_passant_heavy(), &tables, 3), 2_812);
}

#[test]
fn perft_en_passant_heavy_depth_4() {
    let tables = init().unwrap();
    assert_eq!(perft(&en_passant_heavy(), &tables, 4), 43_238);
}

#[test]
fn perft_en_passant_heavy_depth_5() {
    let tables = init().unwrap();
    assert_eq!(perft(&en_passant_heavy(), &tables, 5), 674_624);
}
