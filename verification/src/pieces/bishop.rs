//! Bishop attacks and occupancy: ray walks along the four diagonals,
//! terminating on (and including) the first blocker.

use vstd::prelude::*;
use crate::bitboard::{
    bit_set, coords, dist, get_bit, group_bit_lemmas, lemma_coords_square, lemma_square_coords,
    set_bit, sq,
};
use vstd::math::min;

verus! {

/// The square `k` diagonal steps from `s`, toward increasing rank
/// index when `down` and increasing file index when `right`.
pub open spec fn diag_sq(s: u64, down: bool, right: bool, k: int) -> u64 {
    let r = if down {
        s / 8 + k
    } else {
        s / 8 - k
    };
    let f = if right {
        s % 8 + k
    } else {
        s % 8 - k
    };
    (r * 8 + f) as u64
}

/// No blocker stands on the first `n - 1` diagonal steps from `s`.
pub open spec fn diag_clear(blockers: u64, s: u64, down: bool, right: bool, n: int) -> bool {
    forall|k: int| 1 <= k < n ==> !bit_set(blockers, diag_sq(s, down, right, k))
}

/// How many diagonal steps fit from coordinate `coord` in the chosen
/// direction: up to the board edge, or one short of it when `trim`.
pub open spec fn diag_room(coord: u64, increasing: bool, trim: bool) -> int {
    if increasing {
        let lim: int = if trim {
            6
        } else {
            7
        };
        if coord <= lim {
            lim - coord
        } else {
            0
        }
    } else {
        let base: int = if trim {
            1
        } else {
            0
        };
        if coord >= base {
            coord - base
        } else {
            0
        }
    }
}

/// Square `t` is marked by the diagonal walk from `s` in the given
/// direction: some steps out on that diagonal, inside the walk's
/// bounds, with no blocker strictly between.
pub open spec fn diag_hit(
    s: u64,
    blockers: u64,
    down: bool,
    right: bool,
    trim: bool,
    t: u64,
) -> bool {
    let k = dist(s / 8, t / 8);
    &&& k >= 1
    &&& dist(s % 8, t % 8) == k
    &&& if down {
        t / 8 > s / 8
    } else {
        t / 8 < s / 8
    }
    &&& if right {
        t % 8 > s % 8
    } else {
        t % 8 < s % 8
    }
    &&& trim ==> 1 <= t / 8 < 7 && 1 <= t % 8 < 7
    &&& diag_clear(blockers, s, down, right, k)
}

/// A bishop on square `s` attacks square `t`: the two squares lie on
/// a common diagonal and every square strictly between them is free
/// of blockers (the first blocker itself is attacked, as it may be
/// captured).
pub open spec fn bishop_reaches(s: u64, blockers: u64, t: u64) -> bool {
    let k = dist(s / 8, t / 8);
    k >= 1 && dist(s % 8, t % 8) == k && diag_clear(blockers, s, t / 8 > s / 8, t % 8 > s % 8, k)
}

/// Square `t` belongs to the bishop's relevant-occupancy mask for
/// square `s`: on a common diagonal, distinct from `s`, and not on
/// any board edge.
pub open spec fn bishop_occupancy_at(s: u64, t: u64) -> bool {
    let k = dist(s / 8, t / 8);
    k >= 1 && dist(s % 8, t % 8) == k && 1 <= t / 8 < 7 && 1 <= t % 8 < 7
}

/// Walks one diagonal from the given square, marking each square and
/// stopping on (and including) the first blocker; `trim` stops one
/// square short of the board edge instead of on it.
fn bishop_ray(square: u8, blockers: u64, down: bool, right: bool, trim: bool) -> (bb: u64)
    requires
        square < 64,
    ensures
        forall|t: u64|
            t < 64 ==> bit_set(bb, t) == diag_hit(square as u64, blockers, down, right, trim, t),
{
    let (rank, file) = coords(square);
    let ghost s = square as u64;
    proof {
        lemma_square_coords(s);
    }

    let edge_r: u8 = if trim {
        if down {
            6
        } else {
            1
        }
    } else {
        if down {
            7
        } else {
            0
        }
    };
    let room_r: u8 = if down {
        if rank <= edge_r {
            edge_r - rank
        } else {
            0
        }
    } else {
        if rank >= edge_r {
            rank - edge_r
        } else {
            0
        }
    };
    let edge_f: u8 = if trim {
        if right {
            6
        } else {
            1
        }
    } else {
        if right {
            7
        } else {
            0
        }
    };
    let room_f: u8 = if right {
        if file <= edge_f {
            edge_f - file
        } else {
            0
        }
    } else {
        if file >= edge_f {
            file - edge_f
        } else {
            0
        }
    };
    let n: u8 = if room_r < room_f {
        room_r
    } else {
        room_f
    };
    proof {
        assert(room_r == diag_room(s / 8, down, trim));
        assert(room_f == diag_room(s % 8, right, trim));
    }

    let mut bb: u64 = 0;
    let mut k: u8 = 1;
    let mut blocked = false;
    proof {
        broadcast use group_bit_lemmas;

    }
    while k <= n && !blocked
        invariant
            square < 64,
            s == square as u64,
            rank == s / 8,
            file == s % 8,
            n as int == min(diag_room(s / 8, down, trim), diag_room(s % 8, right, trim)),
            n <= 7,
            1 <= k <= n + 1,
            blocked ==> 2 <= k && bit_set(blockers, diag_sq(s, down, right, k - 1)) && diag_clear(
                blockers,
                s,
                down,
                right,
                k - 1,
            ),
            !blocked ==> diag_clear(blockers, s, down, right, k as int),
            forall|t: u64|
                t < 64 ==> bit_set(bb, t) == ({
                    let j = dist(s / 8, t / 8);
                    &&& 1 <= j < k
                    &&& dist(s % 8, t % 8) == j
                    &&& if down {
                        t / 8 > s / 8
                    } else {
                        t / 8 < s / 8
                    }
                    &&& if right {
                        t % 8 > s % 8
                    } else {
                        t % 8 < s % 8
                    }
                    &&& diag_clear(blockers, s, down, right, j)
                }),
        decreases n - k + 1,
    {
        let r: u8 = if down {
            rank + k
        } else {
            rank - k
        };
        let f: u8 = if right {
            file + k
        } else {
            file - k
        };
        let step = sq(r, f);
        proof {
            broadcast use group_bit_lemmas;

            lemma_coords_square(r as u64, f as u64);
            assert(step as u64 == diag_sq(s, down, right, k as int));
        }
        set_bit(&mut bb, step);
        if get_bit(blockers, step) != 0 {
            blocked = true;
        }
        proof {
            assert forall|t: u64|
                t < 64 && #[trigger] dist(s / 8, t / 8) == k && dist(s % 8, t % 8) == k && (if down {
                    t / 8 > s / 8
                } else {
                    t / 8 < s / 8
                }) && (if right {
                    t % 8 > s % 8
                } else {
                    t % 8 < s % 8
                }) implies t == step by {
                lemma_square_coords(t);
            }
        }
        k += 1;
    }
    proof {
        assert forall|t: u64| t < 64 implies bit_set(bb, t) == diag_hit(
            s,
            blockers,
            down,
            right,
            trim,
            t,
        ) by {
            lemma_square_coords(t);
            let j = dist(s / 8, t / 8);
            if diag_hit(s, blockers, down, right, trim, t) {
                if blocked && j >= k {
                    assert(!diag_clear(blockers, s, down, right, j));
                }
            }
        }
    }
    bb
}

/// Marks all four diagonal rays from the given square; `trim` makes
/// each ray stop one square short of the board edge.
pub fn get_bishop_moves(square: u8, blockers: u64, trim: bool) -> (bb: u64)
    requires
        square < 64,
    ensures
        forall|t: u64|
            t < 64 ==> bit_set(bb, t) == (diag_hit(square as u64, blockers, true, true, trim, t)
                || diag_hit(square as u64, blockers, true, false, trim, t) || diag_hit(
                square as u64,
                blockers,
                false,
                true,
                trim,
                t,
            ) || diag_hit(square as u64, blockers, false, false, trim, t)),
{
    let down_right = bishop_ray(square, blockers, true, true, trim);
    let down_left = bishop_ray(square, blockers, true, false, trim);
    let up_right = bishop_ray(square, blockers, false, true, trim);
    let up_left = bishop_ray(square, blockers, false, false, trim);

    let bb = down_right | down_left | up_right | up_left;
    proof {
        broadcast use group_bit_lemmas;

    }
    bb
}

/// The squares a bishop on the given square attacks through the
/// given blocker board: every diagonal runs to the board edge or to
/// its first blocker, which is included.
pub fn get_bishop_attacks(square: u8, blockers: u64) -> (attacks: u64)
    requires
        square < 64,
    ensures
        forall|t: u64| t < 64 ==> bit_set(attacks, t) == bishop_reaches(square as u64, blockers, t),
{
    let attacks = get_bishop_moves(square, blockers, false);
    proof {
        let s = square as u64;
        lemma_square_coords(s);
        assert forall|t: u64| t < 64 implies bit_set(attacks, t) == bishop_reaches(s, blockers, t) by {
            lemma_square_coords(t);
        }
    }
    attacks
}

/// The bishop's relevant-occupancy mask: the squares whose occupancy
/// can change the bishop's attack set, leaving out the board edges.
pub fn get_bishop_occupancy(square: u8) -> (occupancy: u64)
    requires
        square < 64,
    ensures
        forall|t: u64| t < 64 ==> bit_set(occupancy, t) == bishop_occupancy_at(square as u64, t),
{
    let occupancy = get_bishop_moves(square, 0, true);
    proof {
        broadcast use crate::bitboard::lemma_bit_zero;

        let s = square as u64;
        lemma_square_coords(s);
        assert forall|t: u64| t < 64 implies bit_set(occupancy, t) == bishop_occupancy_at(s, t) by {
            lemma_square_coords(t);
        }
    }
    occupancy
}

/// No square of the bishop's occupancy mask lies on any board edge.
pub proof fn lemma_bishop_occupancy_interior(s: u64, t: u64)
    requires
        s < 64,
        t < 64,
        bishop_occupancy_at(s, t),
    ensures
        1 <= t / 8 < 7,
        1 <= t % 8 < 7,
{
}

} // verus!
