//! Rules core of a chess engine: square sets, attack generation, move
//! encoding, pseudo-legal and legal move generation, and move application.

pub mod attack;
pub mod bitboard_consts;
pub mod bits;
pub mod board;
pub mod fen_string;
pub mod game;
pub mod kastling;
pub mod movegen;
pub mod moves;
pub mod piece;
pub mod position;
pub mod square;
pub mod text;
