//! Rook attacks and occupancy: ray walks along the rank-varying and
//! file-varying axes, terminating on (and including) the first
//! blocker.

use vstd::prelude::*;
use crate::bitboard::{
    bit_from_sq, bit_set, coords, get_bit, group_bit_lemmas, lemma_coords_square,
    lemma_square_coords, set_bit, sq,
};
use crate::defs::Axis;
use vstd::math::{max, min};

verus! {

/// The square whose moving coordinate along `axis` is `c`, while the
/// other coordinate is held at `fixed`.
pub open spec fn axis_sq(axis: Axis, fixed: u64, c: u64) -> u64 {
    match axis {
        Axis::Rank => (c * 8 + fixed) as u64,
        Axis::File => (fixed * 8 + c) as u64,
    }
}

/// The moving coordinate of square `t` along `axis`.
pub open spec fn axis_coord(axis: Axis, t: u64) -> u64 {
    match axis {
        Axis::Rank => t / 8,
        Axis::File => t % 8,
    }
}

/// The coordinate of square `t` that `axis` holds fixed.
pub open spec fn axis_fixed_coord(axis: Axis, t: u64) -> u64 {
    match axis {
        Axis::Rank => t % 8,
        Axis::File => t / 8,
    }
}

/// No blocker stands on the axis squares with moving coordinate in
/// `[lo, hi)`.
pub open spec fn ray_clear(blockers: u64, axis: Axis, fixed: u64, lo: int, hi: int) -> bool {
    forall|c: u64| lo <= c < hi ==> !bit_set(blockers, axis_sq(axis, fixed, c))
}

/// Square `t` is marked by the ray walk that visits moving
/// coordinates `[lo, hi)` — upward from `lo`, or downward from
/// `hi - 1` — and stops on the first blocker, keeping its square.
pub open spec fn ray_hit(
    axis: Axis,
    fixed: u64,
    lo: int,
    hi: int,
    descending: bool,
    blockers: u64,
    t: u64,
) -> bool {
    let c = axis_coord(axis, t);
    axis_fixed_coord(axis, t) == fixed && lo <= c < hi && if descending {
        ray_clear(blockers, axis, fixed, c + 1, hi)
    } else {
        ray_clear(blockers, axis, fixed, lo, c as int)
    }
}

/// A rook on square `s` attacks square `t`: the two squares share a
/// file or a rank, and every square strictly between them is free of
/// blockers (the first blocker itself is attacked, as it may be
/// captured).
pub open spec fn rook_reaches(s: u64, blockers: u64, t: u64) -> bool {
    ||| (t % 8 == s % 8 && t != s && ray_clear(
        blockers,
        Axis::Rank,
        s % 8,
        min((s / 8) as int, (t / 8) as int) + 1,
        max((s / 8) as int, (t / 8) as int),
    ))
    ||| (t / 8 == s / 8 && t != s && ray_clear(
        blockers,
        Axis::File,
        s / 8,
        min((s % 8) as int, (t % 8) as int) + 1,
        max((s % 8) as int, (t % 8) as int),
    ))
}

/// Square `t` belongs to the rook's relevant-occupancy mask for
/// square `s`: on a shared rank or file, distinct from `s`, and not
/// on the outermost rank or file of its ray.
pub open spec fn rook_occupancy_at(s: u64, t: u64) -> bool {
    t != s && ((t % 8 == s % 8 && 1 <= t / 8 < 7) || (t / 8 == s / 8 && 1 <= t % 8 < 7))
}

/// Marks the axis squares with moving coordinate in `[lo, hi)`,
/// walking upward from `lo` or downward from `hi - 1`, stopping on
/// the first square occupied in `blockers` but keeping that square.
pub fn get_rook_moves(
    axis: Axis,
    static_coord: u8,
    lo: u8,
    hi: u8,
    descending: bool,
    blockers: u64,
) -> (bb: u64)
    requires
        static_coord < 8,
        lo <= hi,
        hi <= 8,
    ensures
        forall|t: u64|
            t < 64 ==> bit_set(bb, t) == ray_hit(
                axis,
                static_coord as u64,
                lo as int,
                hi as int,
                descending,
                blockers,
                t,
            ),
{
    let ghost fixed = static_coord as u64;
    let mut bb: u64 = 0;
    proof {
        broadcast use group_bit_lemmas;

    }

    if !descending {
        let mut c: u8 = lo;
        let mut blocked = false;
        while c < hi && !blocked
            invariant
                static_coord < 8,
                fixed == static_coord as u64,
                lo <= c <= hi,
                hi <= 8,
                blocked ==> lo < c && bit_set(blockers, axis_sq(axis, fixed, (c - 1) as u64))
                    && ray_clear(blockers, axis, fixed, lo as int, c - 1),
                !blocked ==> ray_clear(blockers, axis, fixed, lo as int, c as int),
                forall|t: u64|
                    t < 64 ==> bit_set(bb, t) == (axis_fixed_coord(axis, t) == fixed && lo
                        <= axis_coord(axis, t) < c && ray_clear(
                        blockers,
                        axis,
                        fixed,
                        lo as int,
                        axis_coord(axis, t) as int,
                    )),
            decreases hi - c,
        {
            let s = match axis {
                Axis::Rank => sq(c, static_coord),
                Axis::File => sq(static_coord, c),
            };
            proof {
                broadcast use group_bit_lemmas;

                match axis {
                    Axis::Rank => lemma_coords_square(c as u64, fixed),
                    Axis::File => lemma_coords_square(fixed, c as u64),
                }
            }
            set_bit(&mut bb, s);
            if get_bit(blockers, s) != 0 {
                blocked = true;
            }
            proof {
                assert forall|t: u64| t < 64 && t != s implies axis_fixed_coord(axis, t) != fixed
                    || axis_coord(axis, t) != c by {
                    lemma_square_coords(t);
                }
            }
            c += 1;
        }
        proof {
            assert forall|t: u64| t < 64 implies bit_set(bb, t) == ray_hit(
                axis,
                fixed,
                lo as int,
                hi as int,
                descending,
                blockers,
                t,
            ) by {
                if blocked && axis_fixed_coord(axis, t) == fixed && c <= axis_coord(axis, t) < hi {
                    assert(bit_set(blockers, axis_sq(axis, fixed, (c - 1) as u64)));
                    assert(!ray_clear(blockers, axis, fixed, lo as int, axis_coord(axis, t) as int));
                }
            }
        }
    } else {
        let mut c: u8 = hi;
        let mut blocked = false;
        while c > lo && !blocked
            invariant
                static_coord < 8,
                fixed == static_coord as u64,
                lo <= c <= hi,
                hi <= 8,
                blocked ==> c < hi && bit_set(blockers, axis_sq(axis, fixed, c as u64))
                    && ray_clear(blockers, axis, fixed, c + 1, hi as int),
                !blocked ==> ray_clear(blockers, axis, fixed, c as int, hi as int),
                forall|t: u64|
                    t < 64 ==> bit_set(bb, t) == (axis_fixed_coord(axis, t) == fixed && c
                        <= axis_coord(axis, t) < hi && ray_clear(
                        blockers,
                        axis,
                        fixed,
                        axis_coord(axis, t) + 1,
                        hi as int,
                    )),
            decreases c,
        {
            c -= 1;
            let s = match axis {
                Axis::Rank => sq(c, static_coord),
                Axis::File => sq(static_coord, c),
            };
            proof {
                broadcast use group_bit_lemmas;

                match axis {
                    Axis::Rank => lemma_coords_square(c as u64, fixed),
                    Axis::File => lemma_coords_square(fixed, c as u64),
                }
            }
            set_bit(&mut bb, s);
            if get_bit(blockers, s) != 0 {
                blocked = true;
            }
            proof {
                assert forall|t: u64| t < 64 && t != s implies axis_fixed_coord(axis, t) != fixed
                    || axis_coord(axis, t) != c by {
                    lemma_square_coords(t);
                }
            }
        }
        proof {
            assert forall|t: u64| t < 64 implies bit_set(bb, t) == ray_hit(
                axis,
                fixed,
                lo as int,
                hi as int,
                descending,
                blockers,
                t,
            ) by {
                if blocked && axis_fixed_coord(axis, t) == fixed && lo <= axis_coord(axis, t) < c {
                    assert(bit_set(blockers, axis_sq(axis, fixed, c as u64)));
                    assert(!ray_clear(blockers, axis, fixed, axis_coord(axis, t) + 1, hi as int));
                }
            }
        }
    }
    bb
}

/// The squares a rook on the given square attacks through the given
/// blocker board: every ray runs to the board edge or to its first
/// blocker, which is included.
pub fn get_rook_attacks(square: u8, blockers: u64) -> (attacks: u64)
    requires
        square < 64,
    ensures
        forall|t: u64| t < 64 ==> bit_set(attacks, t) == rook_reaches(square as u64, blockers, t),
{
    let (rank, file) = coords(square);

    let below = get_rook_moves(Axis::Rank, file, rank + 1, 8, false, blockers);
    let above = get_rook_moves(Axis::Rank, file, 0, rank, true, blockers);
    let right = get_rook_moves(Axis::File, rank, file + 1, 8, false, blockers);
    let left = get_rook_moves(Axis::File, rank, 0, file, true, blockers);

    let attacks = below | above | right | left;
    proof {
        broadcast use group_bit_lemmas;

        let s = square as u64;
        lemma_square_coords(s);
        assert forall|t: u64| t < 64 implies bit_set(attacks, t) == rook_reaches(s, blockers, t) by {
            lemma_square_coords(t);
        }
    }
    attacks
}

/// The rook's relevant-occupancy mask: the squares whose occupancy
/// can change the rook's attack set, leaving out the last square of
/// each ray.
pub fn get_rook_occupancy(square: u8) -> (occupancy: u64)
    requires
        square < 64,
    ensures
        forall|t: u64| t < 64 ==> bit_set(occupancy, t) == rook_occupancy_at(square as u64, t),
{
    let (rank, file) = coords(square);
    let rook = bit_from_sq(square);

    let rank_moves = get_rook_moves(Axis::Rank, file, 1, 7, false, 0);
    let file_moves = get_rook_moves(Axis::File, rank, 1, 7, false, 0);

    let occupancy = (rank_moves | file_moves) & !rook;
    proof {
        broadcast use group_bit_lemmas;

        let s = square as u64;
        lemma_square_coords(s);
        assert forall|t: u64| t < 64 implies bit_set(occupancy, t) == rook_occupancy_at(s, t) by {
            lemma_square_coords(t);
        }
    }
    occupancy
}

/// No square of the rook's occupancy mask lies on the outermost rank
/// of its file ray, nor on the outermost file of its rank ray.
pub proof fn lemma_rook_occupancy_interior(s: u64, t: u64)
    requires
        s < 64,
        t < 64,
        rook_occupancy_at(s, t),
    ensures
        t % 8 == s % 8 ==> 1 <= t / 8 < 7,
        t / 8 == s / 8 ==> 1 <= t % 8 < 7,
{
    lemma_square_coords(s);
    lemma_square_coords(t);
}

} // verus!
