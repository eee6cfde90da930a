use chess_core::bitboard::{bit_from_sq, coords, del_bit, get_bit, get_ls1b_index, set_bit, sq};
use chess_core::defs::Square::{A1, E4, H8};

#[test]
fn gets_bit() {
    assert_eq!(get_bit(5u64, 0), 1);
    assert_eq!(get_bit(5u64, 1), 0);
    assert_eq!(get_bit(5u64, 2), 4);
}

#[test]
fn sets_bit() {
    let mut bitboard: u64 = 0;
    set_bit(&mut bitboard, 2);
    set_bit(&mut bitboard, 5);
    set_bit(&mut bitboard, 63);
    assert_eq!(get_bit(bitboard, 2), u64::pow(2, 2));
    assert_eq!(get_bit(bitboard, 5), u64::pow(2, 5));
    assert_eq!(get_bit(bitboard, 63), u64::pow(2, 63));
}

#[test]
fn deletes_bit_if_necessary() {
    let mut bitboard: u64 = 4;
    del_bit(&mut bitboard, 2);
    assert_eq!(get_bit(bitboard, 2), 0);
    del_bit(&mut bitboard, 2);
    assert_eq!(get_bit(bitboard, 2), 0);
}

#[test]
fn returns_square_index() {
    assert_eq!(sq(1, 0), 8);
    assert_eq!(sq(1, 2), 10);
    assert_eq!(sq(0, 7), 7);
}

#[test]
fn gets_square_coords() {
    assert_eq!(coords(sq(1, 0)), (1, 0));
    assert_eq!(coords(sq(1, 2)), (1, 2));
    assert_eq!(coords(sq(0, 7)), (0, 7));
}

#[test]
fn gets_bit_from_square() {
    assert_eq!(bit_from_sq(0), 1);
    assert_eq!(bit_from_sq(5), u64::pow(2, 5));
    assert_eq!(bit_from_sq(63), u64::pow(2, 63));
}

#[test]
fn gets_ls1b_index() {
    assert_eq!(get_ls1b_index(bit_from_sq(A1 as u8)), A1 as u8);
    assert_eq!(get_ls1b_index(bit_from_sq(E4 as u8)), E4 as u8);
    assert_eq!(get_ls1b_index(bit_from_sq(H8 as u8)), H8 as u8);
}

#[test]
fn set_bit_is_idempotent() {
    let mut once: u64 = 0b1010;
    set_bit(&mut once, 17);
    let mut twice = once;
    set_bit(&mut twice, 17);
    assert_eq!(once, twice);
}

#[test]
fn ls1b_of_mixed_board() {
    let mut board: u64 = 0;
    set_bit(&mut board, 12);
    set_bit(&mut board, 40);
    set_bit(&mut board, 63);
    assert_eq!(get_ls1b_index(board), 12);
}
