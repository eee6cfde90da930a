//! King attacks: the eight one-step moves, masked so that a shift
//! cannot wrap around the a/h file boundary.

use vstd::prelude::*;
use crate::bitboard::{bit_from_sq, bit_set, dist, group_bit_lemmas};
use crate::constants::{A_FILE, H_FILE};

verus! {

/// A king on square `s` attacks square `t`: the two squares differ,
/// and both rank and file are at most one step apart.
pub open spec fn king_reaches(s: u64, t: u64) -> bool {
    t != s && dist(s / 8, t / 8) <= 1 && dist(s % 8, t % 8) <= 1
}

/// The attack board of a king standing on the board `k` (one set bit).
pub open spec fn king_attack_board(k: u64) -> u64 {
    ((k >> 7) & !A_FILE) | (k >> 8) | ((k >> 9) & !H_FILE) | ((k >> 1) & !H_FILE) | ((k << 1)
        & !A_FILE) | ((k << 7) & !H_FILE) | (k << 8) | ((k << 9) & !A_FILE)
}

/// The shift-and-mask board holds exactly the squares a chebyshev
/// step away from the king's square.
proof fn lemma_king_attack_bits(s: u64, a: u64)
    requires
        s < 64,
        a == king_attack_board(1u64 << s),
    ensures
        forall|t: u64| t < 64 ==> bit_set(a, t) == king_reaches(s, t),
{
    assert(forall|t: u64| t < 64 ==> bit_set(a, t) == king_reaches(s, t)) by (bit_vector)
        requires
            s < 64 && a == king_attack_board(1u64 << s),
    ;
}

/// The squares attacked by a king on the given square: 3 from a
/// corner, 5 from a non-corner edge square, 8 from the middle.
pub fn get_king_attacks(square: u8) -> (attacks: u64)
    requires
        square < 64,
    ensures
        attacks == king_attack_board(1u64 << (square as u64)),
        forall|t: u64| t < 64 ==> bit_set(attacks, t) == king_reaches(square as u64, t),
{
    let king = bit_from_sq(square);
    let mut attacks: u64 = 0;

    attacks |= (king >> 7) & !A_FILE;
    attacks |= king >> 8;
    attacks |= (king >> 9) & !H_FILE;
    attacks |= (king >> 1) & !H_FILE;
    attacks |= (king << 1) & !A_FILE;
    attacks |= (king << 7) & !H_FILE;
    attacks |= king << 8;
    attacks |= (king << 9) & !A_FILE;

    proof {
        broadcast use group_bit_lemmas;

        assert(attacks == king_attack_board(king));
        lemma_king_attack_bits(square as u64, attacks);
    }
    attacks
}

/// The king attack table: entry `s` is the attack board of a king
/// on square `s`.
pub fn get_king_attacks_table() -> (table: [u64; 64])
    ensures
        forall|s: int| 0 <= s < 64 ==> table@[s] == king_attack_board(1u64 << (s as u64)),
        forall|s: u64, t: u64|
            s < 64 && t < 64 ==> bit_set(table@[s as int], t) == king_reaches(s, t),
{
    let mut table: [u64; 64] = [0; 64];
    let mut square: usize = 0;
    while square < 64
        invariant
            square <= 64,
            forall|s: int| 0 <= s < square ==> table@[s] == king_attack_board(1u64 << (s as u64)),
        decreases 64 - square,
    {
        table[square] = get_king_attacks(square as u8);
        square += 1;
    }
    proof {
        assert forall|s: u64, t: u64| s < 64 && t < 64 implies bit_set(table@[s as int], t)
            == king_reaches(s, t) by {
            lemma_king_attack_bits(s, table@[s as int]);
        }
    }
    table
}

} // verus!
