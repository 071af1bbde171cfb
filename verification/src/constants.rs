//! Dimensions of the playing field and the colours a block can take.

use vstd::prelude::*;

verus! {

/// Width of the visible board, in cells.
pub const BOARD_WIDTH: u8 = 9;

/// Height of the visible board, in cells.
pub const BOARD_HEIGHT: u8 = 34;

/// Width of a paddle, in cells.
pub const PADDLE_WIDTH: usize = 5;

/// Width of a paddle, for arithmetic with `u32` positions.
pub const PADDLE_WIDTH_U32: u32 = 5;

/// The colour tag of a block. Only the tag is kept here; a front end picks
/// the actual shade.
#[derive(Clone, Copy, Debug, PartialEq, Eq, Structural)]
pub enum Colour {
    Red,
    Yellow,
    Green,
    Black,
}

} // verus!
