//! Attack generators, one module per piece kind.

pub mod bishop;
pub mod king;
pub mod knight;
pub mod pawn;
pub mod rook;
