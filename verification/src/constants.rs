//! Board-wide constants: file masks used to stop shifts from wrapping
//! across the a/h boundary, and the two stock FEN strings.

use vstd::prelude::*;

verus! {

/// All eight squares of file a.
pub const A_FILE: u64 = 0x0101010101010101;

/// All eight squares of file h.
pub const H_FILE: u64 = 0x8080808080808080;

/// Files a and b together.
pub const AB_FILE: u64 = 0x0303030303030303;

/// Files g and h together.
pub const GH_FILE: u64 = 0xc0c0c0c0c0c0c0c0;

/// The standard starting position.
pub const STARTING_FEN: &'static str =
    "rnbqkbnr/pppppppp/8/8/8/8/PPPPPPPP/RNBQKBNR w KQkq - 0 1";

/// An empty board, white to move, no castling rights.
pub const EMPTY_FEN: &'static str = "8/8/8/8/8/8/8/8 w - -";

} // verus!
