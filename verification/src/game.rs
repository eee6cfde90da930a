//! The top-level game wrapper: a position and nothing else, yet.

use vstd::prelude::*;
use crate::position::Position;

verus! {

/// A running game, holding the current position.
pub struct Game {
    pub position: Position,
}

impl Game {
    /// A fresh game over the default (empty) position.
    pub fn default() -> (game: Self)
        ensures
            forall|i: int| 0 <= i < 15 ==> game.position.bitboards@[i] == 0,
            game.position.union_ok(),
            game.position.en_passant_square == 64,
            game.position.castling_rights == 0b1111,
            game.position.side_to_move == crate::defs::Side::White,
            game.position.fifty_move_count == 0,
            game.position.halfmove_count == 2,
    {
        Self { position: Position::default() }
    }
}

} // verus!
