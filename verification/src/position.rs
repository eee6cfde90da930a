//! The position aggregate: twelve per-piece boards, the three derived
//! union boards, and the light game state around them.

use vstd::prelude::*;
use crate::bitboard::{bit_set, group_bit_lemmas, lemma_bit_ext, set_bit};
use crate::defs::{piece_index, piece_side, square_index, CastlingRights, Piece, Side, Square};

verus! {

/// A chess position: board slot `i` follows the layout named by
/// `defs::Bitboard` — per-piece boards 0 through 11, then all-white,
/// all-black and all-pieces.
#[derive(Debug, PartialEq)]
pub struct Position {
    pub bitboards: [u64; 15],
    pub en_passant_square: u8,
    pub castling_rights: CastlingRights,
    pub side_to_move: Side,
    pub fifty_move_count: u16,
    pub halfmove_count: u16,
}

/// The three union boards are exactly the bitwise union of their
/// constituent per-piece boards.
pub open spec fn union_invariant(bbs: Seq<u64>) -> bool {
    &&& bbs.len() == 15
    &&& bbs[12] == bbs[0] | bbs[1] | bbs[2] | bbs[3] | bbs[4] | bbs[5]
    &&& bbs[13] == bbs[6] | bbs[7] | bbs[8] | bbs[9] | bbs[10] | bbs[11]
    &&& bbs[14] == bbs[12] | bbs[13]
}

/// Some entry among the first `n` puts the piece of board `p` on
/// square `t`.
pub open spec fn placed_upto(entries: Seq<(Square, Piece)>, n: int, p: int, t: u64) -> bool {
    exists|i: int|
        0 <= i < n && square_index(#[trigger] entries[i].0) == t && piece_index(entries[i].1) == p
}

/// Some entry puts the piece of board `p` on square `t`.
pub open spec fn placed(entries: Seq<(Square, Piece)>, p: int, t: u64) -> bool {
    placed_upto(entries, entries.len() as int, p, t)
}

/// Some entry among the first `n` puts a piece of `side` on square `t`.
pub open spec fn side_placed_upto(entries: Seq<(Square, Piece)>, n: int, side: Side, t: u64) -> bool {
    exists|i: int|
        0 <= i < n && square_index(#[trigger] entries[i].0) == t && piece_side(entries[i].1) == side
}

/// Some entry puts a piece of `side` on square `t`.
pub open spec fn side_placed(entries: Seq<(Square, Piece)>, side: Side, t: u64) -> bool {
    side_placed_upto(entries, entries.len() as int, side, t)
}

/// Some entry among the first `n` puts any piece on square `t`.
pub open spec fn occupied_upto(entries: Seq<(Square, Piece)>, n: int, t: u64) -> bool {
    exists|i: int| 0 <= i < n && square_index(#[trigger] entries[i].0) == t
}

/// Some entry puts any piece on square `t`.
pub open spec fn occupied(entries: Seq<(Square, Piece)>, t: u64) -> bool {
    occupied_upto(entries, entries.len() as int, t)
}

/// Extending the prefix by one entry extends each placement
/// predicate by exactly that entry.
proof fn lemma_placement_unfold(entries: Seq<(Square, Piece)>, n: int, p: int, side: Side, t: u64)
    requires
        0 <= n < entries.len(),
    ensures
        placed_upto(entries, n + 1, p, t) == (placed_upto(entries, n, p, t) || (square_index(
            entries[n].0,
        ) == t && piece_index(entries[n].1) == p)),
        side_placed_upto(entries, n + 1, side, t) == (side_placed_upto(entries, n, side, t) || (
        square_index(entries[n].0) == t && piece_side(entries[n].1) == side)),
        occupied_upto(entries, n + 1, t) == (occupied_upto(entries, n, t) || square_index(
            entries[n].0,
        ) == t),
{
    if placed_upto(entries, n + 1, p, t) {
        let i = choose|i: int|
            0 <= i < n + 1 && square_index(#[trigger] entries[i].0) == t && piece_index(
                entries[i].1,
            ) == p;
        if i < n {
            assert(placed_upto(entries, n, p, t));
        }
    }
    if side_placed_upto(entries, n + 1, side, t) {
        let i = choose|i: int|
            0 <= i < n + 1 && square_index(#[trigger] entries[i].0) == t && piece_side(
                entries[i].1,
            ) == side;
        if i < n {
            assert(side_placed_upto(entries, n, side, t));
        }
    }
    if occupied_upto(entries, n + 1, t) {
        let i = choose|i: int| 0 <= i < n + 1 && square_index(#[trigger] entries[i].0) == t;
        if i < n {
            assert(occupied_upto(entries, n, t));
        }
    }
}

/// On each square, a side's pieces are exactly the pieces of that
/// side's six boards, and the occupied squares are exactly the
/// squares one of the two sides holds.
proof fn lemma_side_union(entries: Seq<(Square, Piece)>, t: u64)
    ensures
        side_placed(entries, Side::White, t) == (placed(entries, 0, t) || placed(entries, 1, t)
            || placed(entries, 2, t) || placed(entries, 3, t) || placed(entries, 4, t) || placed(
            entries,
            5,
            t,
        )),
        side_placed(entries, Side::Black, t) == (placed(entries, 6, t) || placed(entries, 7, t)
            || placed(entries, 8, t) || placed(entries, 9, t) || placed(entries, 10, t) || placed(
            entries,
            11,
            t,
        )),
        occupied(entries, t) == (side_placed(entries, Side::White, t) || side_placed(
            entries,
            Side::Black,
            t,
        )),
{
    let n = entries.len() as int;
    if side_placed(entries, Side::White, t) {
        let i = choose|i: int|
            0 <= i < n && square_index(#[trigger] entries[i].0) == t && piece_side(entries[i].1)
                == Side::White;
        assert(placed(entries, piece_index(entries[i].1), t));
    }
    if side_placed(entries, Side::Black, t) {
        let i = choose|i: int|
            0 <= i < n && square_index(#[trigger] entries[i].0) == t && piece_side(entries[i].1)
                == Side::Black;
        assert(placed(entries, piece_index(entries[i].1), t));
    }
    if occupied(entries, t) {
        let i = choose|i: int| 0 <= i < n && square_index(#[trigger] entries[i].0) == t;
        assert(side_placed(entries, piece_side(entries[i].1), t));
    }
}

impl Position {
    /// The union boards of this position agree with its piece boards.
    pub open spec fn union_ok(self) -> bool {
        union_invariant(self.bitboards@)
    }

    /// An empty board: white to move, full castling rights, no
    /// en-passant target.
    pub fn default() -> (position: Self)
        ensures
            forall|i: int| 0 <= i < 15 ==> position.bitboards@[i] == 0,
            position.union_ok(),
            position.en_passant_square == 64,
            position.castling_rights == 0b1111,
            position.side_to_move == Side::White,
            position.fifty_move_count == 0,
            position.halfmove_count == 2,
    {
        proof {
            broadcast use group_bit_lemmas;

        }
        Self {
            bitboards: [0; 15],
            en_passant_square: Square::NoSquare.index(),
            castling_rights: 0b1111,
            side_to_move: Side::White,
            fifty_move_count: 0,
            halfmove_count: 2,
        }
    }

    /// Folds a square-to-piece mapping into a position: each piece
    /// board holds exactly the squares mapped to its piece, and the
    /// union boards follow. Order-independent; reading the boards
    /// back reproduces the mapping exactly.
    pub fn from_position(position: Vec<(Square, Piece)>) -> (result: Self)
        requires
            forall|i: int| 0 <= i < position@.len() ==> #[trigger] position@[i].0 != Square::NoSquare,
        ensures
            forall|p: int, t: u64|
                0 <= p < 12 && t < 64 ==> #[trigger] bit_set(result.bitboards@[p], t) == placed(
                    position@,
                    p,
                    t,
                ),
            forall|t: u64|
                t < 64 ==> bit_set(result.bitboards@[12], t) == side_placed(
                    position@,
                    Side::White,
                    t,
                ),
            forall|t: u64|
                t < 64 ==> bit_set(result.bitboards@[13], t) == side_placed(
                    position@,
                    Side::Black,
                    t,
                ),
            forall|t: u64| t < 64 ==> bit_set(result.bitboards@[14], t) == occupied(position@, t),
            result.union_ok(),
            result.en_passant_square == 64,
            result.castling_rights == 0b1111,
            result.side_to_move == Side::White,
            result.fifty_move_count == 0,
            result.halfmove_count == 2,
    {
        let mut bitboards: [u64; 15] = [0; 15];
        proof {
            broadcast use group_bit_lemmas;

        }

        let mut i: usize = 0;
        while i < position.len()
            invariant
                i <= position@.len(),
                forall|j: int|
                    0 <= j < position@.len() ==> #[trigger] position@[j].0 != Square::NoSquare,
                forall|p: int, t: u64|
                    0 <= p < 12 && t < 64 ==> #[trigger] bit_set(bitboards@[p], t) == placed_upto(
                        position@,
                        i as int,
                        p,
                        t,
                    ),
                forall|t: u64|
                    t < 64 ==> bit_set(bitboards@[12], t) == side_placed_upto(
                        position@,
                        i as int,
                        Side::White,
                        t,
                    ),
                forall|t: u64|
                    t < 64 ==> bit_set(bitboards@[13], t) == side_placed_upto(
                        position@,
                        i as int,
                        Side::Black,
                        t,
                    ),
                forall|t: u64|
                    t < 64 ==> bit_set(bitboards@[14], t) == occupied_upto(position@, i as int, t),
            decreases position@.len() - i,
        {
            proof {
                broadcast use group_bit_lemmas;

            }
            let entry = position[i];
            let square = entry.0.index();
            let piece = entry.1.index();

            let mut board = bitboards[piece];
            set_bit(&mut board, square);
            bitboards[piece] = board;

            let side_index = Self::get_side_index(entry.1);
            let mut board = bitboards[side_index];
            set_bit(&mut board, square);
            bitboards[side_index] = board;

            let mut board = bitboards[14];
            set_bit(&mut board, square);
            bitboards[14] = board;

            proof {
                assert forall|p: int, t: u64| 0 <= p < 12 && t < 64 implies #[trigger] bit_set(
                    bitboards@[p],
                    t,
                ) == placed_upto(position@, i + 1, p, t) by {
                    lemma_placement_unfold(position@, i as int, p, Side::White, t);
                }
                assert forall|t: u64| t < 64 implies bit_set(bitboards@[12], t)
                    == side_placed_upto(position@, i + 1, Side::White, t) && bit_set(
                    bitboards@[13],
                    t,
                ) == side_placed_upto(position@, i + 1, Side::Black, t) && bit_set(
                    bitboards@[14],
                    t,
                ) == occupied_upto(position@, i + 1, t) by {
                    lemma_placement_unfold(position@, i as int, 0, Side::White, t);
                    lemma_placement_unfold(position@, i as int, 0, Side::Black, t);
                }
            }
            i += 1;
        }

        proof {
            assert forall|t: u64| t < 64 implies bit_set(
                bitboards@[0] | bitboards@[1] | bitboards@[2] | bitboards@[3] | bitboards@[4]
                    | bitboards@[5],
                t,
            ) == bit_set(bitboards@[12], t) && bit_set(
                bitboards@[6] | bitboards@[7] | bitboards@[8] | bitboards@[9] | bitboards@[10]
                    | bitboards@[11],
                t,
            ) == bit_set(bitboards@[13], t) && bit_set(bitboards@[12] | bitboards@[13], t)
                == bit_set(bitboards@[14], t) by {
                lemma_side_union(position@, t);
            }
            lemma_bit_ext(
                bitboards@[0] | bitboards@[1] | bitboards@[2] | bitboards@[3] | bitboards@[4]
                    | bitboards@[5],
                bitboards@[12],
            );
            lemma_bit_ext(
                bitboards@[6] | bitboards@[7] | bitboards@[8] | bitboards@[9] | bitboards@[10]
                    | bitboards@[11],
                bitboards@[13],
            );
            lemma_bit_ext(bitboards@[12] | bitboards@[13], bitboards@[14]);
        }

        Self {
            bitboards,
            en_passant_square: Square::NoSquare.index(),
            castling_rights: 0b1111,
            side_to_move: Side::White,
            fifty_move_count: 0,
            halfmove_count: 2,
        }
    }

    /// The union-board slot that collects the given piece's side.
    pub fn get_side_index(piece: Piece) -> (index: usize)
        ensures
            index == if piece_side(piece) == Side::White {
                12int
            } else {
                13int
            },
    {
        match Side::from(piece) {
            Side::White => crate::defs::Bitboard::WHITE_PIECES,
            Side::Black => crate::defs::Bitboard::BLACK_PIECES,
        }
    }
}

} // verus!
