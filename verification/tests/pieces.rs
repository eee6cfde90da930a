#![allow(unused_imports)]

use chess_core::defs::Side;
use chess_core::defs::Square;
use chess_core::defs::Square::{
    A1, A2, A3, A4, A5, A6, A7, A8, B1, B2, B3, B4, B5, B6, B7, B8, C1, C2, C3, C4, C5, C6, C7,
    C8, D1, D2, D3, D4, D5, D6, D7, D8, E1, E2, E3, E4, E5, E6, E7, E8, F1, F2, F3, F4, F5, F6,
    F7, F8, G1, G2, G3, G4, G5, G6, G7, G8, H1, H2, H3, H4, H5, H6, H7, H8,
};
use chess_core::pieces::bishop::{get_bishop_attacks, get_bishop_occupancy};
use chess_core::pieces::king::{get_king_attacks, get_king_attacks_table};
use chess_core::pieces::knight::{get_knight_attacks, get_knight_attacks_table};
use chess_core::pieces::pawn::{get_pawn_attacks, get_pawn_attacks_table};
use chess_core::pieces::rook::{get_rook_attacks, get_rook_occupancy};

fn bitboard_with(squares: Vec<Square>) -> u64 {
    squares.iter().fold(0, |bitboard, square| bitboard + (1u64 << square.to_owned() as u64))
}

fn verify_bitboard(bitboard: u64, squares: Vec<Square>) {
    assert_eq!(bitboard, bitboard_with(squares))
}

#[test]
fn bishop_generates_occupacy() {
    verify_bitboard(
        get_bishop_occupancy(E4 as u8),
        vec![B7, C6, G6, D5, F5, D3, F3, C2, G2],
    );
    verify_bitboard(get_bishop_occupancy(B3 as u8), vec![F7, E6, D5, C4, C2]);
}

#[test]
fn bishop_valid_edges() {
    verify_bitboard(get_bishop_occupancy(A4 as u8), vec![D7, C6, B5, B3, C2]);
    assert_eq!(get_bishop_occupancy(H1 as u8), get_bishop_occupancy(A8 as u8));
    verify_bitboard(get_bishop_attacks(A4 as u8, 0), vec![E8, D7, C6, B5, B3, C2, D1]);
}

#[test]
fn bishop_generates_attacks() {
    verify_bitboard(
        get_bishop_attacks(D4 as u8, 0),
        vec![H8, A7, G7, B6, F6, C5, E5, C3, E3, B2, F2, A1, G1],
    );
}

#[test]
fn bishop_handles_blockers() {
    let blockers = bitboard_with(vec![F6, A7, B2, F2]);

    verify_bitboard(
        get_bishop_attacks(D4 as u8, blockers),
        vec![A7, B6, F6, C5, E5, C3, E3, B2, F2],
    );
}

#[test]
fn king_generates_attacks() {
    verify_bitboard(get_king_attacks(E4 as u8), vec![D5, E5, F5, D4, F4, D3, E3, F3]);
    verify_bitboard(get_king_attacks(B2 as u8), vec![A3, B3, C3, A2, C2, A1, B1, C1]);
}

#[test]
fn king_valid_edges() {
    verify_bitboard(get_king_attacks(A1 as u8), vec![A2, B2, B1]);
    verify_bitboard(get_king_attacks(A8 as u8), vec![A7, B7, B8]);
    verify_bitboard(get_king_attacks(H1 as u8), vec![G1, G2, H2]);
    verify_bitboard(get_king_attacks(H8 as u8), vec![G8, G7, H7]);
}

#[test]
fn king_generates_table() {
    assert_eq!(get_king_attacks_table()[E4 as usize], get_king_attacks(E4 as u8));
}

#[test]
fn king_corner_counts() {
    assert_eq!(get_king_attacks(A1 as u8).count_ones(), 3);
    assert_eq!(get_king_attacks(A8 as u8).count_ones(), 3);
    assert_eq!(get_king_attacks(H1 as u8).count_ones(), 3);
    assert_eq!(get_king_attacks(H8 as u8).count_ones(), 3);
    assert_eq!(get_king_attacks(A4 as u8).count_ones(), 5);
    assert_eq!(get_king_attacks(E4 as u8).count_ones(), 8);
}

#[test]
fn knight_generates_attacks() {
    verify_bitboard(get_knight_attacks(F3 as u8), vec![E5, G5, D4, H4, D2, H2, E1, G1]);
    verify_bitboard(get_knight_attacks(C6 as u8), vec![B8, D8, A7, E7, A5, E5, B4, D4]);
}

#[test]
fn knight_valid_edges() {
    verify_bitboard(get_knight_attacks(A6 as u8), vec![B8, C7, C5, B4]);
    verify_bitboard(get_knight_attacks(B6 as u8), vec![A8, C8, D7, D5, A4, C4]);
    verify_bitboard(get_knight_attacks(H3 as u8), vec![G5, F4, F2, G1]);
    verify_bitboard(get_knight_attacks(G3 as u8), vec![F5, H5, E4, E2, F1, H1]);
}

#[test]
fn knight_generates_table() {
    verify_bitboard(get_knight_attacks(F3 as u8), vec![E5, G5, D4, H4, D2, H2, E1, G1]);
    assert_eq!(get_knight_attacks_table()[C6 as usize], get_knight_attacks(C6 as u8));
}

#[test]
fn pawn_generates_attacks() {
    verify_bitboard(get_pawn_attacks(Side::White, E4 as u8), vec![D5, F5]);
    verify_bitboard(get_pawn_attacks(Side::Black, E5 as u8), vec![D4, F4]);
}

#[test]
fn valid_a_h_files() {
    verify_bitboard(get_pawn_attacks(Side::White, A2 as u8), vec![B3]);
    verify_bitboard(get_pawn_attacks(Side::White, H2 as u8), vec![G3]);

    verify_bitboard(get_pawn_attacks(Side::Black, A7 as u8), vec![B6]);
    verify_bitboard(get_pawn_attacks(Side::Black, H7 as u8), vec![G6]);
}

#[test]
fn edges() {
    verify_bitboard(get_pawn_attacks(Side::White, A8 as u8), vec![]);
    verify_bitboard(get_pawn_attacks(Side::White, H8 as u8), vec![]);
    verify_bitboard(get_pawn_attacks(Side::Black, A1 as u8), vec![]);
    verify_bitboard(get_pawn_attacks(Side::Black, H1 as u8), vec![]);
}

#[test]
fn pawn_generates_table() {
    let table = get_pawn_attacks_table();

    verify_bitboard(table[Side::White as usize][E4 as usize], vec![D5, F5]);
    verify_bitboard(table[Side::Black as usize][E5 as usize], vec![D4, F4]);
}

#[test]
fn rook_generates_occupacy() {
    verify_bitboard(
        get_rook_occupancy(E4 as u8),
        vec![E7, E6, E5, E3, E2, B4, C4, D4, F4, G4],
    );
}

#[test]
fn rook_valid_edges() {
    verify_bitboard(
        get_rook_occupancy(A1 as u8),
        vec![A7, A6, A5, A4, A3, A2, B1, C1, D1, E1, F1, G1],
    );
    verify_bitboard(
        get_rook_occupancy(A8 as u8),
        vec![B8, C8, D8, E8, F8, G8, A7, A6, A5, A4, A3, A2],
    );
    verify_bitboard(
        get_rook_occupancy(H1 as u8),
        vec![H7, H6, H5, H4, H3, H2, B1, C1, D1, E1, F1, G1],
    );
    verify_bitboard(
        get_rook_occupancy(H8 as u8),
        vec![B8, C8, D8, E8, F8, G8, H7, H6, H5, H4, H3, H2],
    );
}

#[test]
fn rook_generates_attacks() {
    verify_bitboard(
        get_rook_attacks(D4 as u8, 0),
        vec![D8, D7, D6, D5, D3, D2, D1, A4, B4, C4, E4, F4, G4, H4],
    );
}

#[test]
fn rook_handles_blockers() {
    let blockers = bitboard_with(vec![D6, A4, G4, D2]);

    verify_bitboard(
        get_rook_attacks(D4 as u8, blockers),
        vec![D6, D5, D3, D2, A4, B4, C4, E4, F4, G4],
    );
}

#[test]
fn occupancy_never_holds_a_corner() {
    let corners = bitboard_with(vec![A8, H8, A1, H1]);
    for square in 0..64u8 {
        assert_eq!(get_bishop_occupancy(square) & corners, 0);
        assert_eq!(get_rook_occupancy(square) & corners, 0);
    }
}

#[test]
fn bishop_occupancy_avoids_all_edges() {
    let edges = bitboard_with(vec![
        A8, B8, C8, D8, E8, F8, G8, H8, A1, B1, C1, D1, E1, F1, G1, H1, A7, A6, A5, A4, A3, A2,
        H7, H6, H5, H4, H3, H2,
    ]);
    for square in 0..64u8 {
        assert_eq!(get_bishop_occupancy(square) & edges, 0);
    }
}
