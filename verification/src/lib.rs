//! A falling-block puzzle engine that keeps authoritative game state
//! independent of any rendering surface: a bitmask playfield, a piece
//! catalog with pre-baked rotation grids, and a discrete-tick state machine
//! covering input, gravity, collision, line clearing and scoring.
//!
//! One deliberate departure from convention: clearing a row zeroes it in
//! place and does not shift the rows above it downwards.

pub mod draw_helper;
pub mod grid;
pub mod piece;
mod rng;
pub mod tetris;
