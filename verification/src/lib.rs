//! Bitboard core of a chess engine: board representation as 64-bit
//! occupancy masks, attack generation for every piece kind, and the
//! `Position` aggregate that ties the per-piece boards together.

pub mod bitboard;
pub mod cli;
pub mod constants;
pub mod defs;
pub mod fen;
pub mod game;
pub mod pieces;
pub mod position;
