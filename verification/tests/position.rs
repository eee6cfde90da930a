#![allow(unused_imports)]

use chess_core::bitboard::get_bit;
use chess_core::defs::Bitboard;
use chess_core::defs::Piece;
use chess_core::defs::Square;
use chess_core::defs::Square::{A2, B2, C4, D2, E1, E8, G7, H5};
use chess_core::position::Position;

fn bitboard_with(squares: Vec<Square>) -> u64 {
    squares.iter().fold(0, |bitboard, square| bitboard + (1u64 << square.to_owned() as u64))
}

fn verify_pos_bitboard(position: &Position, bitboard: usize, squares: Vec<Square>) {
    assert_eq!(position.bitboards[bitboard], bitboard_with(squares))
}

#[test]
fn sets_custom_position() {
    let position = Position::from_position(vec![
        (E1, Piece::WhiteKing),
        (A2, Piece::WhitePawn),
        (B2, Piece::WhitePawn),
        (E8, Piece::BlackKing),
    ]);

    verify_pos_bitboard(&position, Bitboard::WHITE_KING, vec![E1]);
    verify_pos_bitboard(&position, Bitboard::WHITE_PAWNS, vec![A2, B2]);
    verify_pos_bitboard(&position, Bitboard::WHITE_PIECES, vec![E1, A2, B2]);
    verify_pos_bitboard(&position, Bitboard::BLACK_KING, vec![E8]);
    verify_pos_bitboard(&position, Bitboard::BLACK_PIECES, vec![E8]);
    verify_pos_bitboard(&position, Bitboard::ALL_PIECES, vec![E1, A2, B2, E8]);
}

#[test]
fn gets_side_index() {
    assert_eq!(Position::get_side_index(Piece::WhiteKing), Bitboard::WHITE_PIECES);
    assert_eq!(Position::get_side_index(Piece::BlackKing), Bitboard::BLACK_PIECES);
}

#[test]
fn union_boards_follow_piece_boards() {
    let position = Position::from_position(vec![
        (E1, Piece::WhiteKing),
        (C4, Piece::WhiteKnight),
        (E8, Piece::BlackKing),
        (G7, Piece::BlackBishop),
        (H5, Piece::BlackPawn),
    ]);

    let mut white: u64 = 0;
    let mut black: u64 = 0;
    for board in 0..6 {
        white |= position.bitboards[board];
        black |= position.bitboards[board + 6];
    }
    assert_eq!(position.bitboards[Bitboard::WHITE_PIECES], white);
    assert_eq!(position.bitboards[Bitboard::BLACK_PIECES], black);
    assert_eq!(position.bitboards[Bitboard::ALL_PIECES], white | black);
}

#[test]
fn reads_back_exact_mapping() {
    let placement = vec![
        (E1, Piece::WhiteKing),
        (C4, Piece::WhiteQueen),
        (E8, Piece::BlackKing),
        (D2, Piece::BlackKnight),
    ];
    let position = Position::from_position(placement.clone());

    let mut total: u32 = 0;
    for board in 0..12 {
        total += position.bitboards[board].count_ones();
    }
    assert_eq!(total, placement.len() as u32);
    for (square, piece) in placement {
        assert_ne!(get_bit(position.bitboards[piece as usize], square as u8), 0);
    }
}

#[test]
fn default_position_is_empty() {
    let position = Position::default();
    assert_eq!(position.bitboards, [0u64; 15]);
    assert_eq!(position.en_passant_square, Square::NoSquare as u8);
    assert_eq!(position.castling_rights, 0b1111);
    assert_eq!(position.fifty_move_count, 0);
    assert_eq!(position.halfmove_count, 2);
}

#[test]
fn fresh_game_has_default_position() {
    let game = chess_core::game::Game::default();
    assert_eq!(game.position, Position::default());
}
