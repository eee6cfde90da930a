#![allow(unused_imports)]

use chess_core::constants::{EMPTY_FEN, STARTING_FEN};
use chess_core::defs::Castling;
use chess_core::defs::Piece::{
    BlackBishop, BlackKing, BlackKnight, BlackPawn, BlackQueen, BlackRook, WhiteBishop,
    WhiteKing, WhiteKnight, WhitePawn, WhiteQueen, WhiteRook,
};
use chess_core::defs::Side;
use chess_core::defs::Square::{
    A1, A2, A7, A8, B1, B2, B4, B7, B8, C1, C2, C4, C6, C7, C8, D1, D2, D6, D7, D8, E1, E2, E4,
    E7, E8, F1, F2, F7, F8, G1, G2, G7, G8, H1, H2, H7, H8, NoSquare,
};
use chess_core::fen::{get_castling_rights, get_halfmoves, get_square_id};
use chess_core::position::Position;

#[test]
fn gets_halfmoves() {
    assert_eq!(get_halfmoves(0, Side::White), 0);
    assert_eq!(get_halfmoves(0, Side::Black), 1);
    assert_eq!(get_halfmoves(10, Side::White), 20);
    assert_eq!(get_halfmoves(10, Side::Black), 21);
}

#[test]
fn gets_castling_rights() {
    assert_eq!(get_castling_rights("-"), 0);
    assert_eq!(
        get_castling_rights("KQkq"),
        Castling::WK | Castling::WQ | Castling::BK | Castling::BQ
    );
    assert_eq!(get_castling_rights("Qkq"), Castling::WQ | Castling::BK | Castling::BQ);
    assert_eq!(get_castling_rights("Kk"), Castling::WK | Castling::BK);
}

#[test]
fn gets_square_id() {
    assert_eq!(get_square_id("-"), NoSquare as u8);
    assert_eq!(get_square_id("a1"), A1 as u8);
    assert_eq!(get_square_id("h8"), H8 as u8);
    assert_eq!(get_square_id("E4"), E4 as u8);
    assert_eq!(get_square_id("4E"), NoSquare as u8);
}

#[test]
fn parses_empty_fen() {
    assert_eq!(
        Position::from_fen(EMPTY_FEN),
        Position {
            bitboards: [0; 15],
            en_passant_square: NoSquare as u8,
            castling_rights: 0,
            side_to_move: Side::White,
            fifty_move_count: 0,
            halfmove_count: 2
        }
    );
}

#[test]
fn parses_starting_fen() {
    assert_eq!(
        Position::from_fen(STARTING_FEN),
        Position::from_position(vec![
            (A1, WhiteRook),
            (H1, WhiteRook),
            (A8, BlackRook),
            (H8, BlackRook),
            (B1, WhiteKnight),
            (G1, WhiteKnight),
            (B8, BlackKnight),
            (G8, BlackKnight),
            (C1, WhiteBishop),
            (F1, WhiteBishop),
            (C8, BlackBishop),
            (F8, BlackBishop),
            (D1, WhiteQueen),
            (D8, BlackQueen),
            (E1, WhiteKing),
            (E8, BlackKing),
            (A2, WhitePawn),
            (B2, WhitePawn),
            (C2, WhitePawn),
            (D2, WhitePawn),
            (E2, WhitePawn),
            (F2, WhitePawn),
            (G2, WhitePawn),
            (H2, WhitePawn),
            (A7, BlackPawn),
            (B7, BlackPawn),
            (C7, BlackPawn),
            (D7, BlackPawn),
            (E7, BlackPawn),
            (F7, BlackPawn),
            (G7, BlackPawn),
            (H7, BlackPawn),
        ])
    );
}

#[test]
fn parses_random_fen() {
    let bitboards = Position::from_position(vec![
        (E1, WhiteKing),
        (F7, BlackKing),
        (D2, WhiteQueen),
        (D6, BlackQueen),
        (E4, WhiteKnight),
        (C6, BlackKnight),
        (C1, WhiteBishop),
        (D7, BlackBishop),
        (H1, WhiteRook),
        (B8, BlackRook),
        (C4, WhitePawn),
        (B4, BlackPawn),
    ])
    .bitboards;

    assert_eq!(
        Position::from_fen("1r6/3b1k2/2nq4/8/1pP1N3/8/3Q4/2B1K2R b K c3 1 27"),
        Position {
            bitboards,
            en_passant_square: get_square_id("c3"),
            castling_rights: Castling::WK,
            side_to_move: Side::Black,
            fifty_move_count: 1,
            halfmove_count: 55
        }
    );
}

#[test]
fn union_boards_hold_after_parsing() {
    let position = Position::from_fen("1r6/3b1k2/2nq4/8/1pP1N3/8/3Q4/2B1K2R b K c3 1 27");
    let mut white: u64 = 0;
    let mut black: u64 = 0;
    for board in 0..6 {
        white |= position.bitboards[board];
        black |= position.bitboards[board + 6];
    }
    assert_eq!(position.bitboards[12], white);
    assert_eq!(position.bitboards[13], black);
    assert_eq!(position.bitboards[14], white | black);
}

#[test]
fn names_en_passant_squares() {
    assert_eq!(chess_core::cli::en_passant_square(get_square_id("c3")), "c3");
    assert_eq!(chess_core::cli::en_passant_square(get_square_id("h8")), "h8");
    assert_eq!(chess_core::cli::en_passant_square(NoSquare as u8), "--");
}

#[test]
fn names_castling_rights() {
    assert_eq!(chess_core::cli::castling_rights(0b1111), "KQkq");
    assert_eq!(chess_core::cli::castling_rights(0), "----");
    assert_eq!(chess_core::cli::castling_rights(Castling::WK | Castling::BK), "K-k-");
}
