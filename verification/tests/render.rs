use chess_core::castling_rights::CastlingRights;
use chess_core::color::Color;
use chess_core::file::File;
use chess_core::piece::PieceType;
use chess_core::position::Position;
use chess_core::rank::Rank;
use chess_core::square::Square;

#[test]
fn starting_position_prints_as_a_board() {
    let expected = "\n\
\x20 8  r n b q k b n r \n\
\x20 7  p p p p p p p p \n\
\x20 6  . . . . . . . . \n\
\x20 5  . . . . . . . . \n\
\x20 4  . . . . . . . . \n\
\x20 3  . . . . . . . . \n\
\x20 2  P P P P P P P P \n\
\x20 1  R N B Q K B N R \n\
\n\
\x20    a b c d e f g h\n\
\n\
\x20    FEN:        Not Implemented\n\
\x20    Side        White\n\
\x20    En-passant: -\n\
\x20    Castling:   KQkq\n";
    assert_eq!(Position::starting_position().to_string(), expected);
}

#[test]
fn printed_position_tells_side_square_and_rights() {
    let mut position = Position::default();
    position.set_piece(PieceType::WK, Square(60));
    position.set_piece(PieceType::BK, Square(4));
    position.side = Color::Black;
    position.en_passant_sq = Square(44);
    position.castling_rights = CastlingRights { data: 0b0110 };
    let text = position.to_string();
    assert!(text.contains("  8  . . . . k . . . \n"));
    assert!(text.contains("  1  . . . . K . . . \n"));
    assert!(text.contains("     Side        Black\n"));
    assert!(text.contains("     En-passant: e3\n"));
    assert!(text.contains("     Castling:   -Qk-\n"));
}

#[test]
fn small_types_have_names() {
    assert_eq!(Color::White.to_str(), "White");
    assert_eq!(Color::Black.to_str(), "Black");
    assert_eq!(File::FA.to_str(), "a");
    assert_eq!(File::FH.to_str(), "h");
    assert_eq!(Rank::R1.to_str(), "1");
    assert_eq!(Rank::R8.to_str(), "8");
    assert_eq!(PieceType::WN.to_str(), "N");
    assert_eq!(PieceType::BQ.to_str(), "q");
    assert_eq!(PieceType::Null.to_str(), ".");
    assert_eq!(Square(0).to_string(), "a8");
    assert_eq!(Square(63).to_string(), "h1");
    assert_eq!(Square(36).to_string(), "e4");
    assert_eq!(Square(64).to_string(), "-");
    assert_eq!(CastlingRights::all().to_string(), "KQkq");
    assert_eq!(CastlingRights::none().to_string(), "----");
    assert_eq!(CastlingRights { data: 0b1001 }.to_string(), "K--q");
}
