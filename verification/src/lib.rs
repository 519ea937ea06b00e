pub mod bits;
pub mod color;
pub mod file;
pub mod rank;
pub mod square;
pub mod bitboard;
pub mod direction;
pub mod piece;
pub mod castling_rights;
pub mod bit_move;
pub mod move_list;
pub mod magic_bitboards;
pub mod move_init;
pub mod move_masks;
pub mod board;
pub mod move_gen;
pub mod position;
pub mod render;
pub mod count;
pub mod invariants;
pub mod symmetry;
pub mod generated;
pub mod laws;
