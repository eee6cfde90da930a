//! Building a position from a Forsyth-Edwards Notation string. The
//! core assumes a well-formed record (see `fen_wf`); validating text
//! from outside is its caller's job.

use vstd::prelude::*;
use crate::bitboard::{set_bit, sq};
use crate::defs::{side_of, Castling, CastlingRights, Side};
use crate::position::{union_invariant, Position};

verus! {

/// The separators between FEN fields: blanks.
pub open spec fn is_fen_space(c: char) -> bool {
    c == ' ' || c == '\t' || c == '\n' || c == '\r'
}

/// The length of the leading run of non-blank characters.
pub open spec fn token_len(s: Seq<char>) -> int
    decreases s.len(),
{
    if s.len() == 0 || is_fen_space(s[0]) {
        0
    } else {
        1 + token_len(s.drop_first())
    }
}

/// The leading token is nonempty on a non-blank start and never
/// longer than the string.
proof fn lemma_token_len_bounds(s: Seq<char>)
    ensures
        0 <= token_len(s) <= s.len(),
        s.len() > 0 && !is_fen_space(s[0]) ==> token_len(s) >= 1,
    decreases s.len(),
{
    if s.len() > 0 && !is_fen_space(s[0]) {
        lemma_token_len_bounds(s.drop_first());
    }
}

/// The blank-separated fields of a string, in order.
pub open spec fn fen_fields(s: Seq<char>) -> Seq<Seq<char>>
    decreases s.len(),
    via fen_fields_decreases
{
    if s.len() == 0 {
        Seq::empty()
    } else if is_fen_space(s[0]) {
        fen_fields(s.drop_first())
    } else {
        seq![s.take(token_len(s))] + fen_fields(s.skip(token_len(s)))
    }
}

#[via_fn]
proof fn fen_fields_decreases(s: Seq<char>) {
    if s.len() != 0 && !is_fen_space(s[0]) {
        lemma_token_len_bounds(s);
    }
}

/// The leading token ends at the first blank (or the end).
proof fn lemma_token_len_at(s: Seq<char>, i: int)
    requires
        0 <= i <= s.len(),
        forall|j: int| 0 <= j < i ==> !is_fen_space(#[trigger] s[j]),
        i == s.len() || is_fen_space(s[i]),
    ensures
        token_len(s) == i,
    decreases i,
{
    if i > 0 {
        lemma_token_len_at(s.drop_first(), i - 1);
    }
}

/// The board slot of a FEN piece letter, or -1 for any other
/// character: uppercase is white, lowercase black.
pub open spec fn piece_char_index(c: char) -> int {
    if c == 'K' {
        0
    } else if c == 'Q' {
        1
    } else if c == 'R' {
        2
    } else if c == 'B' {
        3
    } else if c == 'N' {
        4
    } else if c == 'P' {
        5
    } else if c == 'k' {
        6
    } else if c == 'q' {
        7
    } else if c == 'r' {
        8
    } else if c == 'b' {
        9
    } else if c == 'n' {
        10
    } else if c == 'p' {
        11
    } else {
        -1
    }
}

/// The value of a FEN skip digit, or 0 for any other character.
pub open spec fn skip_val(c: char) -> int {
    if c == '1' {
        1
    } else if c == '2' {
        2
    } else if c == '3' {
        3
    } else if c == '4' {
        4
    } else if c == '5' {
        5
    } else if c == '6' {
        6
    } else if c == '7' {
        7
    } else if c == '8' {
        8
    } else {
        0
    }
}

/// Fifteen empty boards.
pub open spec fn zero_boards() -> Seq<u64> {
    Seq::new(15, |i: int| 0u64)
}

/// Folds a placement field into the twelve piece boards, walking the
/// squares from a8 left to right, rank by rank: a piece letter marks
/// the current square and advances one file, a digit skips files,
/// a slash starts the next rank; anything else is ignored.
pub open spec fn place_fold(s: Seq<char>, rank: int, file: int, boards: Seq<u64>) -> Seq<u64>
    decreases s.len(),
{
    if s.len() == 0 {
        boards
    } else {
        let c = s[0];
        let rest = s.drop_first();
        if piece_char_index(c) >= 0 {
            let p = piece_char_index(c);
            place_fold(
                rest,
                rank,
                file + 1,
                boards.update(p, boards[p] | (1u64 << ((rank * 8 + file) as u64))),
            )
        } else if skip_val(c) > 0 {
            place_fold(rest, rank, file + skip_val(c), boards)
        } else if c == '/' {
            place_fold(rest, rank + 1, 0, boards)
        } else {
            place_fold(rest, rank, file, boards)
        }
    }
}

/// The placement field keeps the walk on the board: every piece
/// letter lands on a real square, skips stay within the rank, and no
/// slash leaves the last rank.
pub open spec fn placement_ok(s: Seq<char>, rank: int, file: int) -> bool
    decreases s.len(),
{
    if s.len() == 0 {
        true
    } else {
        let c = s[0];
        let rest = s.drop_first();
        if piece_char_index(c) >= 0 {
            0 <= rank < 8 && 0 <= file < 8 && placement_ok(rest, rank, file + 1)
        } else if skip_val(c) > 0 {
            file + skip_val(c) <= 8 && placement_ok(rest, rank, file + skip_val(c))
        } else if c == '/' {
            rank < 7 && placement_ok(rest, rank + 1, 0)
        } else {
            placement_ok(rest, rank, file)
        }
    }
}

/// The fifteen boards a placement field describes: the folded piece
/// boards, then the three unions derived from them.
pub open spec fn placement_boards(s: Seq<char>) -> Seq<u64> {
    let boards = place_fold(s, 0, 0, zero_boards());
    let white = boards[0] | boards[1] | boards[2] | boards[3] | boards[4] | boards[5];
    let black = boards[6] | boards[7] | boards[8] | boards[9] | boards[10] | boards[11];
    boards.update(12, white).update(13, black).update(14, white | black)
}

/// A blank test the verifier can follow.
fn fen_space(c: char) -> (b: bool)
    ensures
        b == is_fen_space(c),
{
    c == ' ' || c == '\t' || c == '\n' || c == '\r'
}

/// Splits a FEN record into its blank-separated fields.
pub fn fen_tokens(s: &str) -> (tokens: Vec<String>)
    ensures
        tokens.deep_view() == fen_fields(s@),
        tokens@.len() == fen_fields(s@).len(),
    decreases s@.len(),
{
    let n = s.unicode_len();
    if n == 0 {
        let tokens: Vec<String> = Vec::new();
        proof {
            assert(tokens.deep_view() =~= fen_fields(s@));
        }
        return tokens;
    }
    if fen_space(s.get_char(0)) {
        let rest = s.substring_char(1, n);
        proof {
            assert(rest@ =~= s@.drop_first());
        }
        let tokens = fen_tokens(rest);
        return tokens;
    }
    let mut i: usize = 1;
    while i < n && !fen_space(s.get_char(i))
        invariant
            1 <= i <= n,
            n == s@.len(),
            forall|j: int| 0 <= j < i ==> !is_fen_space(#[trigger] s@[j]),
        decreases n - i,
    {
        i += 1;
    }
    proof {
        lemma_token_len_at(s@, i as int);
    }
    let token = s.substring_char(0, i);
    let rest = s.substring_char(i, n);
    let mut tokens = fen_tokens(rest);
    tokens.insert(0, token.to_owned());
    proof {
        assert(token@ =~= s@.take(token_len(s@)));
        assert(rest@ =~= s@.skip(token_len(s@)));
        assert(tokens.deep_view() =~= fen_fields(s@));
    }
    tokens
}

/// The board slot of a piece letter, 12 for any other character.
fn piece_char_slot(c: char) -> (slot: usize)
    ensures
        piece_char_index(c) >= 0 ==> slot == piece_char_index(c),
        piece_char_index(c) < 0 ==> slot == 12,
{
    if c == 'K' {
        0
    } else if c == 'Q' {
        1
    } else if c == 'R' {
        2
    } else if c == 'B' {
        3
    } else if c == 'N' {
        4
    } else if c == 'P' {
        5
    } else if c == 'k' {
        6
    } else if c == 'q' {
        7
    } else if c == 'r' {
        8
    } else if c == 'b' {
        9
    } else if c == 'n' {
        10
    } else if c == 'p' {
        11
    } else {
        12
    }
}

/// The value of a skip digit, 0 for any other character.
fn skip_digit(c: char) -> (d: u8)
    ensures
        d == skip_val(c),
{
    if c == '1' {
        1
    } else if c == '2' {
        2
    } else if c == '3' {
        3
    } else if c == '4' {
        4
    } else if c == '5' {
        5
    } else if c == '6' {
        6
    } else if c == '7' {
        7
    } else if c == '8' {
        8
    } else {
        0
    }
}

/// Builds the fifteen position boards out of a placement field.
pub fn place_pieces(placement: &str) -> (bitboards: [u64; 15])
    requires
        placement_ok(placement@, 0, 0),
    ensures
        bitboards@ == placement_boards(placement@),
        union_invariant(bitboards@),
{
    let n = placement.unicode_len();
    let mut bitboards: [u64; 15] = [0; 15];
    let mut rank: u8 = 0;
    let mut file: u8 = 0;
    let mut i: usize = 0;
    proof {
        assert(placement@.skip(0) =~= placement@);
        assert(bitboards@ =~= zero_boards());
    }
    while i < n
        invariant
            i <= n,
            n == placement@.len(),
            rank <= 7,
            file <= 8,
            bitboards@.len() == 15,
            placement_ok(placement@.skip(i as int), rank as int, file as int),
            place_fold(placement@.skip(i as int), rank as int, file as int, bitboards@)
                == place_fold(placement@, 0, 0, zero_boards()),
        decreases n - i,
    {
        let c = placement.get_char(i);
        proof {
            assert(placement@.skip(i as int).drop_first() =~= placement@.skip(i + 1));
            assert(placement@.skip(i as int)[0] == placement@[i as int]);
        }
        let slot = piece_char_slot(c);
        if slot < 12 {
            let square = sq(rank, file);
            let mut board = bitboards[slot];
            set_bit(&mut board, square);
            bitboards[slot] = board;
            file = file + 1;
        } else {
            let d = skip_digit(c);
            if d > 0 {
                file = file + d;
            } else if c == '/' {
                rank = rank + 1;
                file = 0;
            }
        }
        i += 1;
    }
    proof {
        assert(placement@.skip(n as int) =~= Seq::<char>::empty());
        assert(bitboards@ == place_fold(placement@, 0, 0, zero_boards()));
    }

    let white = bitboards[0] | bitboards[1] | bitboards[2] | bitboards[3] | bitboards[4]
        | bitboards[5];
    let black = bitboards[6] | bitboards[7] | bitboards[8] | bitboards[9] | bitboards[10]
        | bitboards[11];
    bitboards[12] = white;
    bitboards[13] = black;
    bitboards[14] = white | black;
    proof {
        assert(bitboards@ =~= placement_boards(placement@));
    }
    bitboards
}

/// Folds a castling-rights field left to right, one flag per
/// letter, stopping at the first character that is no right.
pub open spec fn castling_fold(s: Seq<char>, acc: u8) -> u8
    decreases s.len(),
{
    if s.len() == 0 {
        acc
    } else if s[0] == 'K' {
        castling_fold(s.drop_first(), acc | 1)
    } else if s[0] == 'Q' {
        castling_fold(s.drop_first(), acc | 2)
    } else if s[0] == 'k' {
        castling_fold(s.drop_first(), acc | 4)
    } else if s[0] == 'q' {
        castling_fold(s.drop_first(), acc | 8)
    } else {
        acc
    }
}

/// Parses a FEN castling-rights field such as `KQkq` into the
/// 4-bit flag set; `-` (or any other stranger) ends the reading.
pub fn get_castling_rights(rights_str: &str) -> (rights: CastlingRights)
    ensures
        rights == castling_fold(rights_str@, 0),
{
    let n = rights_str.unicode_len();
    let mut rights: u8 = 0;
    let mut i: usize = 0;
    proof {
        assert(rights_str@.skip(0) =~= rights_str@);
    }
    while i < n
        invariant_except_break
            i <= n,
            n == rights_str@.len(),
            castling_fold(rights_str@.skip(i as int), rights) == castling_fold(rights_str@, 0),
        ensures
            rights == castling_fold(rights_str@, 0),
        decreases n - i,
    {
        let c = rights_str.get_char(i);
        proof {
            assert(rights_str@.skip(i as int).drop_first() =~= rights_str@.skip(i + 1));
            assert(rights_str@.skip(i as int)[0] == rights_str@[i as int]);
        }
        if c == 'K' {
            rights = rights | Castling::WK;
        } else if c == 'Q' {
            rights = rights | Castling::WQ;
        } else if c == 'k' {
            rights = rights | Castling::BK;
        } else if c == 'q' {
            rights = rights | Castling::BQ;
        } else {
            break ;
        }
        i += 1;
    }
    proof {
        if i == n {
            assert(rights_str@.skip(n as int) =~= Seq::<char>::empty());
        }
    }
    rights
}

/// The file index of a square-name letter, 8 for any other
/// character; either letter case is read.
pub open spec fn file_val(c: char) -> int {
    if c == 'a' || c == 'A' {
        0
    } else if c == 'b' || c == 'B' {
        1
    } else if c == 'c' || c == 'C' {
        2
    } else if c == 'd' || c == 'D' {
        3
    } else if c == 'e' || c == 'E' {
        4
    } else if c == 'f' || c == 'F' {
        5
    } else if c == 'g' || c == 'G' {
        6
    } else if c == 'h' || c == 'H' {
        7
    } else {
        8
    }
}

/// The rank number named by a square-name digit, 0 for any other
/// character.
pub open spec fn rank_val(c: char) -> int {
    skip_val(c)
}

/// The square index a square-name field stands for: 0 through 63
/// for a real square name, 64 (no square) for `-` and for anything
/// unreadable.
pub open spec fn square_id_of(s: Seq<char>) -> u8 {
    if s.len() == 2 && file_val(s[0]) < 8 && rank_val(s[1]) > 0 {
        (((8 - rank_val(s[1])) * 8) + file_val(s[0])) as u8
    } else {
        64
    }
}

/// Reads a square name such as `e4` (either letter case), giving
/// the square index, or 64 when the field is `-` or unreadable.
pub fn get_square_id(square_str: &str) -> (square: u8)
    ensures
        square == square_id_of(square_str@),
        square <= 64,
{
    let n = square_str.unicode_len();
    if n != 2 {
        return 64;
    }
    let c0 = square_str.get_char(0);
    let c1 = square_str.get_char(1);
    let file: u8 = if c0 == 'a' || c0 == 'A' {
        0
    } else if c0 == 'b' || c0 == 'B' {
        1
    } else if c0 == 'c' || c0 == 'C' {
        2
    } else if c0 == 'd' || c0 == 'D' {
        3
    } else if c0 == 'e' || c0 == 'E' {
        4
    } else if c0 == 'f' || c0 == 'F' {
        5
    } else if c0 == 'g' || c0 == 'G' {
        6
    } else if c0 == 'h' || c0 == 'H' {
        7
    } else {
        8
    };
    let rank = skip_digit(c1);
    if file < 8 && rank > 0 {
        ((8 - rank) * 8) + file
    } else {
        64
    }
}

/// A decimal digit test.
pub open spec fn is_digit(c: char) -> bool {
    c == '0' || c == '1' || c == '2' || c == '3' || c == '4' || c == '5' || c == '6' || c == '7'
        || c == '8' || c == '9'
}

/// Every character is a decimal digit.
pub open spec fn all_digits(s: Seq<char>) -> bool {
    forall|i: int| 0 <= i < s.len() ==> is_digit(#[trigger] s[i])
}

/// The value of one decimal digit, 0 for any other character.
pub open spec fn digit_val(c: char) -> int {
    if c == '9' {
        9
    } else {
        skip_val(c)
    }
}

/// The number a string of decimal digits denotes.
pub open spec fn dec_val(s: Seq<char>) -> int
    decreases s.len(),
{
    if s.len() == 0 {
        0
    } else {
        dec_val(s.drop_last()) * 10 + digit_val(s.last())
    }
}

/// A digit string never denotes a negative number.
proof fn lemma_dec_val_nonneg(s: Seq<char>)
    ensures
        dec_val(s) >= 0,
    decreases s.len(),
{
    if s.len() > 0 {
        lemma_dec_val_nonneg(s.drop_last());
    }
}

/// A digit string denotes a number no smaller than the number any
/// of its prefixes denotes.
proof fn lemma_dec_val_prefix(s: Seq<char>, k: int)
    requires
        0 <= k <= s.len(),
    ensures
        dec_val(s.take(k)) <= dec_val(s),
    decreases s.len() - k,
{
    if k < s.len() {
        assert(s.take(k + 1).drop_last() =~= s.take(k));
        assert(s.take(k + 1).last() == s[k]);
        lemma_dec_val_nonneg(s.take(k));
        lemma_dec_val_prefix(s, k + 1);
    } else {
        assert(s.take(k) =~= s);
    }
}

/// The value of one decimal digit, read off the character.
fn digit(c: char) -> (d: u8)
    ensures
        d == digit_val(c),
{
    if c == '9' {
        9
    } else {
        skip_digit(c)
    }
}

/// Reads a decimal count field (half-move or full-move clock).
fn parse_u16(s: &str) -> (value: u16)
    requires
        s@.len() >= 1,
        all_digits(s@),
        dec_val(s@) <= u16::MAX as int,
    ensures
        value == dec_val(s@),
{
    let n = s.unicode_len();
    let mut value: u16 = 0;
    let mut i: usize = 0;
    proof {
        assert(s@.take(0) =~= Seq::<char>::empty());
    }
    while i < n
        invariant
            i <= n,
            n == s@.len(),
            dec_val(s@) <= u16::MAX as int,
            value == dec_val(s@.take(i as int)),
        decreases n - i,
    {
        let c = s.get_char(i);
        let d = digit(c);
        proof {
            assert(s@.take(i + 1).drop_last() =~= s@.take(i as int));
            assert(s@.take(i + 1).last() == s@[i as int]);
            lemma_dec_val_nonneg(s@.take(i as int));
            lemma_dec_val_prefix(s@, i + 1);
        }
        value = value * 10 + (d as u16);
        i += 1;
    }
    proof {
        assert(s@.take(n as int) =~= s@);
    }
    value
}

/// The total half-move count of a game that has seen the given
/// number of full moves, one more when black is still to move.
pub fn get_halfmoves(full_moves: u16, side_to_move: Side) -> (halfmoves: u16)
    requires
        full_moves <= 32767,
    ensures
        halfmoves == 2 * full_moves + (if side_to_move == Side::Black {
            1int
        } else {
            0
        }),
{
    (full_moves * 2) + (
    if side_to_move == Side::Black {
        1
    } else {
        0
    })
}

/// A FEN record this core can read: four or six blank-separated
/// fields, a placement walk that stays on the board, and clock
/// fields made of digits that fit the counters.
pub open spec fn fen_wf(s: Seq<char>) -> bool {
    let fields = fen_fields(s);
    &&& fields.len() == 4 || fields.len() == 6
    &&& placement_ok(fields[0], 0, 0)
    &&& fields.len() == 6 ==> fields[4].len() >= 1 && all_digits(fields[4]) && dec_val(fields[4])
        <= u16::MAX as int
    &&& fields.len() == 6 ==> fields[5].len() >= 1 && all_digits(fields[5]) && dec_val(fields[5])
        <= 32767
}

impl Position {
    /// Builds a position from a FEN record: the placement field
    /// fills the fifteen boards, and the remaining fields give side
    /// to move, castling rights, en-passant target and the clocks.
    /// A four-field record reads as clocks `0` and `1`.
    pub fn from_fen(fen: &str) -> (position: Self)
        requires
            fen_wf(fen@),
        ensures
            position.bitboards@ == placement_boards(fen_fields(fen@)[0]),
            position.union_ok(),
            position.side_to_move == side_of(fen_fields(fen@)[1]),
            position.castling_rights == castling_fold(fen_fields(fen@)[2], 0),
            position.en_passant_square == square_id_of(fen_fields(fen@)[3]),
            position.fifty_move_count == (if fen_fields(fen@).len() == 6 {
                dec_val(fen_fields(fen@)[4])
            } else {
                0int
            }),
            position.halfmove_count == 2 * (if fen_fields(fen@).len() == 6 {
                dec_val(fen_fields(fen@)[5])
            } else {
                1int
            }) + (if side_of(fen_fields(fen@)[1]) == Side::Black {
                1int
            } else {
                0int
            }),
    {
        let fen_parts = fen_tokens(fen);
        proof {
            assert(fen_parts.deep_view()[0] == fen_parts@[0]@);
            assert(fen_parts.deep_view()[1] == fen_parts@[1]@);
            assert(fen_parts.deep_view()[2] == fen_parts@[2]@);
            assert(fen_parts.deep_view()[3] == fen_parts@[3]@);
            if fen_fields(fen@).len() == 6 {
                assert(fen_parts.deep_view()[4] == fen_parts@[4]@);
                assert(fen_parts.deep_view()[5] == fen_parts@[5]@);
            }
        }

        let bitboards = place_pieces(fen_parts[0].as_str());
        let side_to_move = Side::from(fen_parts[1].as_str());
        let castling_rights = get_castling_rights(fen_parts[2].as_str());
        let en_passant_square = get_square_id(fen_parts[3].as_str());
        let fifty_move_count = if fen_parts.len() == 6 {
            parse_u16(fen_parts[4].as_str())
        } else {
            0
        };
        let full_moves = if fen_parts.len() == 6 {
            parse_u16(fen_parts[5].as_str())
        } else {
            1
        };
        let halfmove_count = get_halfmoves(full_moves, side_to_move);

        Self {
            bitboards,
            en_passant_square,
            castling_rights,
            side_to_move,
            fifty_move_count,
            halfmove_count,
        }
    }
}

} // verus!
