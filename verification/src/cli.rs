//! Display-string helpers for position fields. The printing itself
//! is left to the caller; these build the text it shows.

use vstd::prelude::*;
use crate::defs::Castling;

verus! {

/// The display letter of a file index: `a` through `h`.
pub open spec fn file_letter(f: u64) -> char {
    if f == 0 {
        'a'
    } else if f == 1 {
        'b'
    } else if f == 2 {
        'c'
    } else if f == 3 {
        'd'
    } else if f == 4 {
        'e'
    } else if f == 5 {
        'f'
    } else if f == 6 {
        'g'
    } else {
        'h'
    }
}

/// The display digit of a rank index, counted from the top: rank
/// index 0 prints as `8`, rank index 7 as `1`.
pub open spec fn rank_digit(r: u64) -> char {
    if r == 0 {
        '8'
    } else if r == 1 {
        '7'
    } else if r == 2 {
        '6'
    } else if r == 3 {
        '5'
    } else if r == 4 {
        '4'
    } else if r == 5 {
        '3'
    } else if r == 6 {
        '2'
    } else {
        '1'
    }
}

/// The display name of an en-passant target: the square's name, or
/// `--` when there is none.
pub open spec fn en_passant_name(square: u64) -> Seq<char> {
    if square < 64 {
        seq![file_letter(square % 8), rank_digit(square / 8)]
    } else {
        seq!['-', '-']
    }
}

/// The display form of a castling-rights flag set: one letter per
/// right, a dash for each missing right.
pub open spec fn castling_name(rights: u8) -> Seq<char> {
    seq![
        if rights & 1 != 0 {
            'K'
        } else {
            '-'
        },
        if rights & 2 != 0 {
            'Q'
        } else {
            '-'
        },
        if rights & 4 != 0 {
            'k'
        } else {
            '-'
        },
        if rights & 8 != 0 {
            'q'
        } else {
            '-'
        },
    ]
}

/// The square name shown for an en-passant target, `--` if none.
pub fn en_passant_square(square: u8) -> (name: String)
    requires
        square <= 64,
    ensures
        name@ == en_passant_name(square as u64),
{
    proof {
        reveal_strlit("--");
        reveal_strlit("a");
        reveal_strlit("b");
        reveal_strlit("c");
        reveal_strlit("d");
        reveal_strlit("e");
        reveal_strlit("f");
        reveal_strlit("g");
        reveal_strlit("h");
        reveal_strlit("1");
        reveal_strlit("2");
        reveal_strlit("3");
        reveal_strlit("4");
        reveal_strlit("5");
        reveal_strlit("6");
        reveal_strlit("7");
        reveal_strlit("8");
    }
    if square >= 64 {
        let name = String::from_str("--");
        proof {
            assert(name@ =~= en_passant_name(square as u64));
        }
        return name;
    }
    let file_str: &str = match square % 8 {
        0 => "a",
        1 => "b",
        2 => "c",
        3 => "d",
        4 => "e",
        5 => "f",
        6 => "g",
        _ => "h",
    };
    let rank_str: &str = match square / 8 {
        0 => "8",
        1 => "7",
        2 => "6",
        3 => "5",
        4 => "4",
        5 => "3",
        6 => "2",
        _ => "1",
    };
    let mut name = String::from_str(file_str);
    name.append(rank_str);
    proof {
        assert(name@ =~= en_passant_name(square as u64));
    }
    name
}

/// The castling-rights display string, `KQkq` style.
pub fn castling_rights(rights: u8) -> (name: String)
    ensures
        name@ == castling_name(rights),
{
    proof {
        reveal_strlit("K");
        reveal_strlit("Q");
        reveal_strlit("k");
        reveal_strlit("q");
        reveal_strlit("-");
    }
    let mut name = String::new();
    name.append(
        if rights & Castling::WK != 0 {
            "K"
        } else {
            "-"
        },
    );
    name.append(
        if rights & Castling::WQ != 0 {
            "Q"
        } else {
            "-"
        },
    );
    name.append(
        if rights & Castling::BK != 0 {
            "k"
        } else {
            "-"
        },
    );
    name.append(
        if rights & Castling::BQ != 0 {
            "q"
        } else {
            "-"
        },
    );
    proof {
        assert(name@ =~= castling_name(rights));
    }
    name
}

} // verus!
