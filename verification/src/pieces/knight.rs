//! Knight attacks: the eight L-shaped jumps, each masked against the
//! one- or two-file wraparound its shift could otherwise produce.

use vstd::prelude::*;
use crate::bitboard::{bit_from_sq, bit_set, dist, group_bit_lemmas};
use crate::constants::{AB_FILE, A_FILE, GH_FILE, H_FILE};

verus! {

/// A knight on square `s` attacks square `t`: two ranks and one file
/// apart, or one rank and two files apart.
pub open spec fn knight_reaches(s: u64, t: u64) -> bool {
    (dist(s / 8, t / 8) == 2 && dist(s % 8, t % 8) == 1) || (dist(s / 8, t / 8) == 1 && dist(
        s % 8,
        t % 8,
    ) == 2)
}

/// The attack board of a knight standing on the board `k` (one set bit).
pub open spec fn knight_attack_board(k: u64) -> u64 {
    ((k >> 17) & !H_FILE) | ((k >> 15) & !A_FILE) | ((k >> 10) & !GH_FILE) | ((k >> 6) & !AB_FILE)
        | ((k << 17) & !A_FILE) | ((k << 15) & !H_FILE) | ((k << 10) & !AB_FILE) | ((k << 6)
        & !GH_FILE)
}

/// The shift-and-mask board holds exactly the squares an L-shaped
/// jump away from the knight's square.
proof fn lemma_knight_attack_bits(s: u64, a: u64)
    requires
        s < 64,
        a == knight_attack_board(1u64 << s),
    ensures
        forall|t: u64| t < 64 ==> bit_set(a, t) == knight_reaches(s, t),
{
    assert(forall|t: u64| t < 64 ==> bit_set(a, t) == knight_reaches(s, t)) by (bit_vector)
        requires
            s < 64 && a == knight_attack_board(1u64 << s),
    ;
}

/// The squares attacked by a knight on the given square.
pub fn get_knight_attacks(square: u8) -> (attacks: u64)
    requires
        square < 64,
    ensures
        attacks == knight_attack_board(1u64 << (square as u64)),
        forall|t: u64| t < 64 ==> bit_set(attacks, t) == knight_reaches(square as u64, t),
{
    let knight = bit_from_sq(square);
    let mut attacks: u64 = 0;

    attacks |= (knight >> 17) & !H_FILE;
    attacks |= (knight >> 15) & !A_FILE;
    attacks |= (knight >> 10) & !GH_FILE;
    attacks |= (knight >> 6) & !AB_FILE;
    attacks |= (knight << 17) & !A_FILE;
    attacks |= (knight << 15) & !H_FILE;
    attacks |= (knight << 10) & !AB_FILE;
    attacks |= (knight << 6) & !GH_FILE;

    proof {
        broadcast use group_bit_lemmas;

        assert(attacks == knight_attack_board(knight));
        lemma_knight_attack_bits(square as u64, attacks);
    }
    attacks
}

/// The knight attack table: entry `s` is the attack board of a
/// knight on square `s`.
pub fn get_knight_attacks_table() -> (table: [u64; 64])
    ensures
        forall|s: int| 0 <= s < 64 ==> table@[s] == knight_attack_board(1u64 << (s as u64)),
        forall|s: u64, t: u64|
            s < 64 && t < 64 ==> bit_set(table@[s as int], t) == knight_reaches(s, t),
{
    let mut table: [u64; 64] = [0; 64];
    let mut square: usize = 0;
    while square < 64
        invariant
            square <= 64,
            forall|s: int| 0 <= s < square ==> table@[s] == knight_attack_board(1u64 << (s as u64)),
        decreases 64 - square,
    {
        table[square] = get_knight_attacks(square as u8);
        square += 1;
    }
    proof {
        assert forall|s: u64, t: u64| s < 64 && t < 64 implies bit_set(table@[s as int], t)
            == knight_reaches(s, t) by {
            lemma_knight_attack_bits(s, table@[s as int]);
        }
    }
    table
}

} // verus!
