//! Pawn attacks: the two forward diagonals of the side to move,
//! each masked against its own file-boundary wraparound. White
//! attacks toward decreasing rank index, black toward increasing.

use vstd::prelude::*;
use crate::bitboard::{bit_from_sq, bit_set, dist, group_bit_lemmas};
use crate::constants::{A_FILE, H_FILE};
use crate::defs::Side;

verus! {

/// A pawn of the given side on square `s` attacks square `t`: one
/// file apart, one rank forward for that side.
pub open spec fn pawn_reaches(side: Side, s: u64, t: u64) -> bool {
    dist(s % 8, t % 8) == 1 && if side == Side::White {
        t / 8 + 1 == s / 8
    } else {
        s / 8 + 1 == t / 8
    }
}

/// The attack board of a white pawn standing on the board `k`.
pub open spec fn white_pawn_attack_board(k: u64) -> u64 {
    ((k >> 7) & !A_FILE) | ((k >> 9) & !H_FILE)
}

/// The attack board of a black pawn standing on the board `k`.
pub open spec fn black_pawn_attack_board(k: u64) -> u64 {
    ((k << 7) & !H_FILE) | ((k << 9) & !A_FILE)
}

/// The attack board of a pawn of the given side on the board `k`.
pub open spec fn pawn_attack_board(side: Side, k: u64) -> u64 {
    if side == Side::White {
        white_pawn_attack_board(k)
    } else {
        black_pawn_attack_board(k)
    }
}

proof fn lemma_white_pawn_attack_bits(s: u64, a: u64)
    requires
        s < 64,
        a == white_pawn_attack_board(1u64 << s),
    ensures
        forall|t: u64|
            t < 64 ==> bit_set(a, t) == (dist(s % 8, t % 8) == 1 && t / 8 + 1 == s / 8),
{
    assert(forall|t: u64|
        t < 64 ==> bit_set(a, t) == (dist(s % 8, t % 8) == 1 && t / 8 + 1 == s / 8))
        by (bit_vector)
        requires
            s < 64 && a == white_pawn_attack_board(1u64 << s),
    ;
}

proof fn lemma_black_pawn_attack_bits(s: u64, a: u64)
    requires
        s < 64,
        a == black_pawn_attack_board(1u64 << s),
    ensures
        forall|t: u64|
            t < 64 ==> bit_set(a, t) == (dist(s % 8, t % 8) == 1 && s / 8 + 1 == t / 8),
{
    assert(forall|t: u64|
        t < 64 ==> bit_set(a, t) == (dist(s % 8, t % 8) == 1 && s / 8 + 1 == t / 8))
        by (bit_vector)
        requires
            s < 64 && a == black_pawn_attack_board(1u64 << s),
    ;
}

/// A pawn standing on the rank it attacks away from the board
/// attacks nothing: white on rank index 0, black on rank index 7.
pub proof fn lemma_pawn_back_rank(side: Side, s: u64, t: u64)
    requires
        s < 64,
        t < 64,
        side == Side::White ==> s / 8 == 0,
        side == Side::Black ==> s / 8 == 7,
    ensures
        !pawn_reaches(side, s, t),
{
}

/// The squares attacked by a pawn of the given side on the given
/// square (captures only; pawn pushes are not attacks).
pub fn get_pawn_attacks(side: Side, square: u8) -> (attacks: u64)
    requires
        square < 64,
    ensures
        attacks == pawn_attack_board(side, 1u64 << (square as u64)),
        forall|t: u64| t < 64 ==> bit_set(attacks, t) == pawn_reaches(side, square as u64, t),
{
    let pawn = bit_from_sq(square);
    let mut attacks: u64 = 0;

    match side {
        Side::White => {
            attacks |= (pawn >> 7) & !A_FILE;
            attacks |= (pawn >> 9) & !H_FILE;
            proof {
                broadcast use group_bit_lemmas;

                assert(attacks == white_pawn_attack_board(pawn));
                lemma_white_pawn_attack_bits(square as u64, attacks);
            }
        },
        Side::Black => {
            attacks |= (pawn << 7) & !H_FILE;
            attacks |= (pawn << 9) & !A_FILE;
            proof {
                broadcast use group_bit_lemmas;

                assert(attacks == black_pawn_attack_board(pawn));
                lemma_black_pawn_attack_bits(square as u64, attacks);
            }
        },
    }

    attacks
}

/// The pawn attack table, indexed by side then square: row 0 is
/// white, row 1 is black.
pub fn get_pawn_attacks_table() -> (table: [[u64; 64]; 2])
    ensures
        forall|s: int|
            0 <= s < 64 ==> table@[0]@[s] == pawn_attack_board(Side::White, 1u64 << (s as u64)),
        forall|s: int|
            0 <= s < 64 ==> table@[1]@[s] == pawn_attack_board(Side::Black, 1u64 << (s as u64)),
        forall|s: u64, t: u64|
            s < 64 && t < 64 ==> bit_set(table@[0]@[s as int], t) == pawn_reaches(
                Side::White,
                s,
                t,
            ),
        forall|s: u64, t: u64|
            s < 64 && t < 64 ==> bit_set(table@[1]@[s as int], t) == pawn_reaches(
                Side::Black,
                s,
                t,
            ),
{
    let mut white: [u64; 64] = [0; 64];
    let mut black: [u64; 64] = [0; 64];
    let mut square: usize = 0;
    while square < 64
        invariant
            square <= 64,
            forall|s: int|
                0 <= s < square ==> white@[s] == pawn_attack_board(
                    Side::White,
                    1u64 << (s as u64),
                ),
            forall|s: int|
                0 <= s < square ==> black@[s] == pawn_attack_board(
                    Side::Black,
                    1u64 << (s as u64),
                ),
        decreases 64 - square,
    {
        white[square] = get_pawn_attacks(Side::White, square as u8);
        black[square] = get_pawn_attacks(Side::Black, square as u8);
        square += 1;
    }
    proof {
        assert forall|s: u64, t: u64| s < 64 && t < 64 implies bit_set(white@[s as int], t)
            == pawn_reaches(Side::White, s, t) && bit_set(black@[s as int], t) == pawn_reaches(
            Side::Black,
            s,
            t,
        ) by {
            lemma_white_pawn_attack_bits(s, white@[s as int]);
            lemma_black_pawn_attack_bits(s, black@[s as int]);
        }
    }
    [white, black]
}

} // verus!
