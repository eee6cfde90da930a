//! Core value types: squares, pieces, sides, the ray axis, and the
//! index layout of the fifteen position bitboards.

use vstd::prelude::*;

verus! {

/// Board squares in bitboard order: index 0 is a8, index 63 is h1,
/// and `NoSquare` (index 64) stands for "no en-passant target".
#[derive(Debug, Copy, Clone, Eq, PartialEq, Hash, Structural)]
pub enum Square {
    A8, B8, C8, D8, E8, F8, G8, H8,
    A7, B7, C7, D7, E7, F7, G7, H7,
    A6, B6, C6, D6, E6, F6, G6, H6,
    A5, B5, C5, D5, E5, F5, G5, H5,
    A4, B4, C4, D4, E4, F4, G4, H4,
    A3, B3, C3, D3, E3, F3, G3, H3,
    A2, B2, C2, D2, E2, F2, G2, H2,
    A1, B1, C1, D1, E1, F1, G1, H1,
    NoSquare,
}

/// The bitboard index a square stands for.
pub open spec fn square_index(s: Square) -> int {
    match s {
        Square::A8 => 0,
        Square::B8 => 1,
        Square::C8 => 2,
        Square::D8 => 3,
        Square::E8 => 4,
        Square::F8 => 5,
        Square::G8 => 6,
        Square::H8 => 7,
        Square::A7 => 8,
        Square::B7 => 9,
        Square::C7 => 10,
        Square::D7 => 11,
        Square::E7 => 12,
        Square::F7 => 13,
        Square::G7 => 14,
        Square::H7 => 15,
        Square::A6 => 16,
        Square::B6 => 17,
        Square::C6 => 18,
        Square::D6 => 19,
        Square::E6 => 20,
        Square::F6 => 21,
        Square::G6 => 22,
        Square::H6 => 23,
        Square::A5 => 24,
        Square::B5 => 25,
        Square::C5 => 26,
        Square::D5 => 27,
        Square::E5 => 28,
        Square::F5 => 29,
        Square::G5 => 30,
        Square::H5 => 31,
        Square::A4 => 32,
        Square::B4 => 33,
        Square::C4 => 34,
        Square::D4 => 35,
        Square::E4 => 36,
        Square::F4 => 37,
        Square::G4 => 38,
        Square::H4 => 39,
        Square::A3 => 40,
        Square::B3 => 41,
        Square::C3 => 42,
        Square::D3 => 43,
        Square::E3 => 44,
        Square::F3 => 45,
        Square::G3 => 46,
        Square::H3 => 47,
        Square::A2 => 48,
        Square::B2 => 49,
        Square::C2 => 50,
        Square::D2 => 51,
        Square::E2 => 52,
        Square::F2 => 53,
        Square::G2 => 54,
        Square::H2 => 55,
        Square::A1 => 56,
        Square::B1 => 57,
        Square::C1 => 58,
        Square::D1 => 59,
        Square::E1 => 60,
        Square::F1 => 61,
        Square::G1 => 62,
        Square::H1 => 63,
        Square::NoSquare => 64,
    }
}

impl Square {
    /// The square's bitboard index, 0 through 63 (64 for `NoSquare`).
    pub fn index(self) -> (i: u8)
        ensures
            i == square_index(self),
    {
        match self {
            Square::A8 => 0,
            Square::B8 => 1,
            Square::C8 => 2,
            Square::D8 => 3,
            Square::E8 => 4,
            Square::F8 => 5,
            Square::G8 => 6,
            Square::H8 => 7,
            Square::A7 => 8,
            Square::B7 => 9,
            Square::C7 => 10,
            Square::D7 => 11,
            Square::E7 => 12,
            Square::F7 => 13,
            Square::G7 => 14,
            Square::H7 => 15,
            Square::A6 => 16,
            Square::B6 => 17,
            Square::C6 => 18,
            Square::D6 => 19,
            Square::E6 => 20,
            Square::F6 => 21,
            Square::G6 => 22,
            Square::H6 => 23,
            Square::A5 => 24,
            Square::B5 => 25,
            Square::C5 => 26,
            Square::D5 => 27,
            Square::E5 => 28,
            Square::F5 => 29,
            Square::G5 => 30,
            Square::H5 => 31,
            Square::A4 => 32,
            Square::B4 => 33,
            Square::C4 => 34,
            Square::D4 => 35,
            Square::E4 => 36,
            Square::F4 => 37,
            Square::G4 => 38,
            Square::H4 => 39,
            Square::A3 => 40,
            Square::B3 => 41,
            Square::C3 => 42,
            Square::D3 => 43,
            Square::E3 => 44,
            Square::F3 => 45,
            Square::G3 => 46,
            Square::H3 => 47,
            Square::A2 => 48,
            Square::B2 => 49,
            Square::C2 => 50,
            Square::D2 => 51,
            Square::E2 => 52,
            Square::F2 => 53,
            Square::G2 => 54,
            Square::H2 => 55,
            Square::A1 => 56,
            Square::B1 => 57,
            Square::C1 => 58,
            Square::D1 => 59,
            Square::E1 => 60,
            Square::F1 => 61,
            Square::G1 => 62,
            Square::H1 => 63,
            Square::NoSquare => 64,
        }
    }
}

/// The twelve piece kinds, white first, in bitboard-index order.
#[derive(Debug, Copy, Clone, Eq, PartialEq, Structural)]
pub enum Piece {
    WhiteKing,
    WhiteQueen,
    WhiteRook,
    WhiteBishop,
    WhiteKnight,
    WhitePawn,
    BlackKing,
    BlackQueen,
    BlackRook,
    BlackBishop,
    BlackKnight,
    BlackPawn,
}

/// The index of the piece's own board inside a position's board array.
pub open spec fn piece_index(p: Piece) -> int {
    match p {
        Piece::WhiteKing => 0,
        Piece::WhiteQueen => 1,
        Piece::WhiteRook => 2,
        Piece::WhiteBishop => 3,
        Piece::WhiteKnight => 4,
        Piece::WhitePawn => 5,
        Piece::BlackKing => 6,
        Piece::BlackQueen => 7,
        Piece::BlackRook => 8,
        Piece::BlackBishop => 9,
        Piece::BlackKnight => 10,
        Piece::BlackPawn => 11,
    }
}

/// The side a piece belongs to.
pub open spec fn piece_side(p: Piece) -> Side {
    if piece_index(p) < 6 {
        Side::White
    } else {
        Side::Black
    }
}

impl Piece {
    /// The index of this piece's board inside a position's board array.
    pub fn index(self) -> (i: usize)
        ensures
            i == piece_index(self),
            i < 12,
    {
        match self {
            Piece::WhiteKing => 0,
            Piece::WhiteQueen => 1,
            Piece::WhiteRook => 2,
            Piece::WhiteBishop => 3,
            Piece::WhiteKnight => 4,
            Piece::WhitePawn => 5,
            Piece::BlackKing => 6,
            Piece::BlackQueen => 7,
            Piece::BlackRook => 8,
            Piece::BlackBishop => 9,
            Piece::BlackKnight => 10,
            Piece::BlackPawn => 11,
        }
    }
}

/// The two players.
#[derive(Debug, Copy, Clone, Eq, PartialEq, Structural)]
pub enum Side {
    White,
    Black,
}

/// The side encoded by the side-to-move field of a FEN string:
/// `"b"` is black, anything else white.
pub open spec fn side_of(s: Seq<char>) -> Side {
    if s.len() == 1 && s[0] == 'b' {
        Side::Black
    } else {
        Side::White
    }
}

impl From<&str> for Side {
    /// The side named by a FEN side-to-move field.
    fn from(s: &str) -> (side: Side)
        ensures
            side == side_of(s@),
    {
        if s.unicode_len() == 1 && s.get_char(0) == 'b' {
            Side::Black
        } else {
            Side::White
        }
    }
}

impl vstd::std_specs::convert::FromSpecImpl<&str> for Side {
    open spec fn obeys_from_spec() -> bool {
        true
    }

    open spec fn from_spec(s: &str) -> Side {
        side_of(s@)
    }
}

impl From<Piece> for Side {
    /// The side that owns a piece.
    fn from(piece: Piece) -> (side: Side)
        ensures
            side == piece_side(piece),
    {
        match piece {
            Piece::WhiteKing
            | Piece::WhiteQueen
            | Piece::WhiteRook
            | Piece::WhiteBishop
            | Piece::WhiteKnight
            | Piece::WhitePawn => Side::White,
            _ => Side::Black,
        }
    }
}

impl vstd::std_specs::convert::FromSpecImpl<Piece> for Side {
    open spec fn obeys_from_spec() -> bool {
        true
    }

    open spec fn from_spec(piece: Piece) -> Side {
        piece_side(piece)
    }
}

/// The two iteration strategies of the rook's ray walk: vary the rank
/// while the file stays fixed, or vary the file while the rank stays
/// fixed.
#[derive(Debug, Copy, Clone, Eq, PartialEq, Structural)]
pub enum Axis {
    Rank,
    File,
}

/// Castling rights are a 4-bit flag set, one bit per right.
pub type CastlingRights = u8;

/// The four castling-right flags.
pub struct Castling;

impl Castling {
    pub const WK: u8 = 1;

    pub const WQ: u8 = 2;

    pub const BK: u8 = 4;

    pub const BQ: u8 = 8;
}

/// Names for the fifteen board slots of a position: twelve per-piece
/// boards followed by the three derived union boards.
pub struct Bitboard;

impl Bitboard {
    pub const WHITE_KING: usize = 0;

    pub const WHITE_QUEENS: usize = 1;

    pub const WHITE_ROOKS: usize = 2;

    pub const WHITE_BISHOPS: usize = 3;

    pub const WHITE_KNIGHTS: usize = 4;

    pub const WHITE_PAWNS: usize = 5;

    pub const BLACK_KING: usize = 6;

    pub const BLACK_QUEENS: usize = 7;

    pub const BLACK_ROOKS: usize = 8;

    pub const BLACK_BISHOPS: usize = 9;

    pub const BLACK_KNIGHTS: usize = 10;

    pub const BLACK_PAWNS: usize = 11;

    pub const WHITE_PIECES: usize = 12;

    pub const BLACK_PIECES: usize = 13;

    pub const ALL_PIECES: usize = 14;
}

} // verus!
