//! A chess board-state and move-legality engine.
//!
//! The engine keeps an 8x8 board of pieces together with a turn counter,
//! computes the set of pseudo-legal destination squares for the piece on a
//! given square, and applies a chosen move while enforcing turn order.
//! Pseudo-legal means a move obeys the piece's movement pattern and basic
//! occupancy rules; it is not checked against leaving the mover's own king
//! in check, and castling, en passant and promotion are out of scope.

pub mod board;
pub mod engine;
pub mod laws;
pub mod rules;
