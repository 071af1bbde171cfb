//! Arcade games for a 9 x 34 LED matrix.
//!
//! The falling-block engine in [`blockdrop`] is the core of the crate: a
//! bordered grid, a catalogue of piece shapes, and a state machine that
//! moves, lands and respawns the active piece and clears full rows.

pub mod constants;
pub mod blockdrop;
pub mod breakout;
pub mod game;
pub mod ledmatrix;
pub mod ledris;
pub mod pong;
mod random;
