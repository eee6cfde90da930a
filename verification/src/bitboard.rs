//! Bitset primitives: a bitboard is a `u64` whose bit `i` stands for
//! square `i` (0 = a8, increasing left to right, then top to bottom).

use vstd::prelude::*;

verus! {

/// Bit `i` of bitboard `b` is switched on.
pub open spec fn bit_set(b: u64, i: u64) -> bool {
    ((b >> i) & 1u64) == 1u64
}

/// The board `b` with the bit of square `s` switched on.
pub open spec fn with_bit(b: u64, s: u64) -> u64 {
    b | (1u64 << s)
}

/// The board `b` with the bit of square `s` switched off.
pub open spec fn without_bit(b: u64, s: u64) -> u64 {
    if bit_set(b, s) {
        b ^ (1u64 << s)
    } else {
        b
    }
}

pub broadcast proof fn lemma_bit_or(a: u64, b: u64, t: u64)
    requires
        t < 64,
    ensures
        #[trigger] bit_set(a | b, t) == (bit_set(a, t) || bit_set(b, t)),
{
    assert(bit_set(a | b, t) == (bit_set(a, t) || bit_set(b, t))) by (bit_vector)
        requires
            t < 64,
    ;
}

pub broadcast proof fn lemma_bit_and(a: u64, b: u64, t: u64)
    requires
        t < 64,
    ensures
        #[trigger] bit_set(a & b, t) == (bit_set(a, t) && bit_set(b, t)),
{
    assert(bit_set(a & b, t) == (bit_set(a, t) && bit_set(b, t))) by (bit_vector)
        requires
            t < 64,
    ;
}

pub broadcast proof fn lemma_bit_not(a: u64, t: u64)
    requires
        t < 64,
    ensures
        #[trigger] bit_set(!a, t) == !bit_set(a, t),
{
    assert(bit_set(!a, t) == !bit_set(a, t)) by (bit_vector)
        requires
            t < 64,
    ;
}

pub broadcast proof fn lemma_bit_single(s: u64, t: u64)
    requires
        s < 64,
        t < 64,
    ensures
        #[trigger] bit_set(1u64 << s, t) == (t == s),
{
    assert(bit_set(1u64 << s, t) == (t == s)) by (bit_vector)
        requires
            s < 64 && t < 64,
    ;
}

pub broadcast proof fn lemma_bit_with(b: u64, s: u64, t: u64)
    requires
        s < 64,
        t < 64,
    ensures
        #[trigger] bit_set(with_bit(b, s), t) == (bit_set(b, t) || t == s),
{
    assert(bit_set(with_bit(b, s), t) == (bit_set(b, t) || t == s)) by (bit_vector)
        requires
            s < 64 && t < 64,
    ;
}

pub broadcast proof fn lemma_bit_without(b: u64, s: u64, t: u64)
    requires
        s < 64,
        t < 64,
    ensures
        #[trigger] bit_set(without_bit(b, s), t) == (bit_set(b, t) && t != s),
{
    assert(bit_set(without_bit(b, s), t) == (bit_set(b, t) && t != s)) by (bit_vector)
        requires
            s < 64 && t < 64,
    ;
}

pub broadcast proof fn lemma_bit_zero(t: u64)
    ensures
        !#[trigger] bit_set(0u64, t),
{
    assert(!bit_set(0u64, t)) by (bit_vector);
}

/// A nonzero masked bit is the same as the bit being set.
pub proof fn lemma_bit_mask(b: u64, s: u64)
    requires
        s < 64,
    ensures
        (b & (1u64 << s) != 0) == bit_set(b, s),
{
    assert((b & (1u64 << s) != 0) == bit_set(b, s)) by (bit_vector)
        requires
            s < 64,
    ;
}

/// Two boards that agree on every square are the same board.
pub proof fn lemma_bit_ext(a: u64, b: u64)
    requires
        forall|t: u64| t < 64 ==> bit_set(a, t) == bit_set(b, t),
    ensures
        a == b,
{
    if a != b {
        let x = a ^ b;
        assert(x != 0) by (bit_vector)
            requires
                a != b && x == (a ^ b),
        ;
        broadcast use vstd::std_specs::bits::axiom_u64_trailing_zeros;

        let t = vstd::std_specs::bits::u64_trailing_zeros(x) as u64;
        assert(bit_set(a, t) != bit_set(b, t)) by (bit_vector)
            requires
                t < 64 && (((a ^ b) >> t) & 1u64) == 1u64,
        ;
    }
}

pub broadcast proof fn lemma_or_zero(a: u64)
    ensures
        #[trigger] (0u64 | a) == a,
{
    assert(0u64 | a == a) by (bit_vector);
}

pub broadcast group group_bit_lemmas {
    lemma_or_zero,
    lemma_bit_or,
    lemma_bit_and,
    lemma_bit_not,
    lemma_bit_single,
    lemma_bit_with,
    lemma_bit_without,
    lemma_bit_zero,
}

/// Setting a bit twice gives the same board as setting it once.
pub proof fn lemma_set_bit_idempotent(b: u64, s: u64)
    requires
        s < 64,
    ensures
        with_bit(with_bit(b, s), s) == with_bit(b, s),
{
    assert(with_bit(with_bit(b, s), s) == with_bit(b, s)) by (bit_vector);
}

/// Clearing a bit that is already clear leaves the board unchanged.
pub proof fn lemma_del_bit_clear_noop(b: u64, s: u64)
    requires
        !bit_set(b, s),
    ensures
        without_bit(b, s) == b,
{
}

/// Distance between two coordinates (ranks or files).
pub open spec fn dist(a: u64, b: u64) -> int {
    if a >= b {
        a - b
    } else {
        b - a
    }
}

/// Rank and file are recovered exactly from the square index built
/// out of them: `coords` inverts `sq`.
pub proof fn lemma_coords_of_sq(rank: u8, file: u8)
    requires
        rank < 8,
        file < 8,
    ensures
        (rank * 8 + file) / 8 == rank,
        (rank * 8 + file) % 8 == file,
        rank * 8 + file < 64,
{
    assert((rank * 8 + file) / 8 == rank && (rank * 8 + file) % 8 == file)
        by (nonlinear_arith)
        requires
            rank < 8 && file < 8,
    ;
}

/// A square index is rebuilt exactly from its rank and file:
/// `sq` inverts `coords`.
pub proof fn lemma_sq_of_coords(square: u8)
    requires
        square < 64,
    ensures
        (square / 8) * 8 + square % 8 == square,
        square / 8 < 8,
        square % 8 < 8,
{
    assert((square / 8) * 8 + square % 8 == square && square / 8 < 8)
        by (nonlinear_arith)
        requires
            square < 64,
    ;
}

/// A square index below 64 splits into a rank and a file below 8.
pub proof fn lemma_square_coords(t: u64)
    requires
        t < 64,
    ensures
        t / 8 < 8,
        t % 8 < 8,
        (t / 8) * 8 + t % 8 == t,
{
    assert(t / 8 < 8 && t % 8 < 8 && (t / 8) * 8 + t % 8 == t) by (nonlinear_arith)
        requires
            t < 64,
    ;
}

/// A rank and a file below 8 make a square index below 64.
pub proof fn lemma_coords_square(r: u64, f: u64)
    requires
        r < 8,
        f < 8,
    ensures
        r * 8 + f < 64,
        (r * 8 + f) / 8 == r,
        (r * 8 + f) % 8 == f,
{
    assert(r * 8 + f < 64 && (r * 8 + f) / 8 == r && (r * 8 + f) % 8 == f) by (nonlinear_arith)
        requires
            r < 8 && f < 8,
    ;
}

/// `board & (1 << square)`: zero exactly when the square is empty.
pub fn get_bit(bitboard: u64, square: u8) -> (r: u64)
    requires
        square < 64,
    ensures
        r == bitboard & (1u64 << (square as u64)),
        (r != 0) == bit_set(bitboard, square as u64),
{
    proof {
        lemma_bit_mask(bitboard, square as u64);
    }
    bitboard & bit_from_sq(square)
}

/// Switches the square's bit on; idempotent.
pub fn set_bit(bitboard: &mut u64, square: u8)
    requires
        square < 64,
    ensures
        *final(bitboard) == with_bit(*old(bitboard), square as u64),
        forall|t: u64|
            t < 64 ==> bit_set(*final(bitboard), t) == (bit_set(*old(bitboard), t)
                || t == square as u64),
{
    proof {
        broadcast use lemma_bit_with;

    }
    *bitboard = *bitboard | (1u64 << (square as u64));
}

/// Switches the square's bit off, only if it is currently on
/// (a no-op otherwise).
pub fn del_bit(bitboard: &mut u64, square: u8)
    requires
        square < 64,
    ensures
        *final(bitboard) == without_bit(*old(bitboard), square as u64),
        forall|t: u64|
            t < 64 ==> bit_set(*final(bitboard), t) == (bit_set(*old(bitboard), t)
                && t != square as u64),
{
    proof {
        broadcast use lemma_bit_without;

    }
    if get_bit(*bitboard, square) != 0 {
        *bitboard = *bitboard ^ (1u64 << (square as u64));
    }
}

/// Square index of a rank and file, both counted from the top left.
pub fn sq(rank: u8, file: u8) -> (s: u8)
    requires
        rank < 8,
        file < 8,
    ensures
        s == rank * 8 + file,
        s < 64,
{
    rank * 8 + file
}

/// The (rank, file) pair of a square index.
pub fn coords(square: u8) -> (rf: (u8, u8))
    requires
        square < 64,
    ensures
        rf.0 == square / 8,
        rf.1 == square % 8,
        rf.0 < 8,
        rf.1 < 8,
{
    (square / 8, square % 8)
}

/// The board holding the given square alone.
pub fn bit_from_sq(square: u8) -> (r: u64)
    requires
        square < 64,
    ensures
        r == 1u64 << (square as u64),
        forall|t: u64| t < 64 ==> bit_set(r, t) == (t == square as u64),
{
    proof {
        broadcast use lemma_bit_single;

    }
    1u64 << (square as u64)
}

/// Index of the least significant switched-on bit of a nonempty board.
pub fn get_ls1b_index(bitboard: u64) -> (s: u8)
    requires
        bitboard != 0,
    ensures
        s < 64,
        bit_set(bitboard, s as u64),
        forall|t: u64| t < s ==> !bit_set(bitboard, t),
{
    proof {
        broadcast use vstd::std_specs::bits::axiom_u64_trailing_zeros;

    }
    bitboard.trailing_zeros() as u8
}

} // verus!
