//! Types shared by all games: grid positions, directions, and blocks.

use vstd::prelude::*;
use vstd::arithmetic::div_mod::{lemma_fundamental_div_mod_converse, lemma_mod_multiples_vanish};
use crate::constants::{BOARD_HEIGHT, BOARD_WIDTH, Colour};

verus! {

/// A cell position on a board.
#[derive(Clone, Copy, Debug, PartialEq, Eq, Structural)]
pub struct Position {
    pub x: u8,
    pub y: u8,
}

/// The coordinate reached from `val` by a step of `offset` on an axis of
/// `max_val` cells.
///
/// A step that would leave the axis at either end is not taken. Any other
/// step is taken modulo the axis length, so the result of a step from inside
/// the axis is inside the axis again.
pub open spec fn spec_calc_offset(val: u8, offset: i8, max_val: u8) -> u8 {
    if (val == 0 && offset < 0) || (val >= max_val - 1 && offset > 0) {
        val
    } else {
        ((val + offset) % (max_val as int)) as u8
    }
}

/// A step from inside an axis ends inside the axis.
pub proof fn lemma_calc_offset_in_range(val: u8, offset: i8, max_val: u8)
    requires
        0 < max_val,
        val < max_val,
    ensures
        spec_calc_offset(val, offset, max_val) < max_val,
{
}

/// Single steps: one cell back or forth, stopping at the ends of the axis.
pub proof fn lemma_calc_offset_unit(val: u8, max_val: u8)
    requires
        0 < max_val,
        val < max_val,
    ensures
        spec_calc_offset(val, 0, max_val) == val,
        spec_calc_offset(val, 1, max_val) == if val == max_val - 1 { val as int } else { val + 1 },
        spec_calc_offset(val, -1i8, max_val) == if val == 0 { 0 } else { val - 1 },
{
    let m = max_val as int;
    if val < max_val - 1 {
        lemma_fundamental_div_mod_converse(val + 1, m, 0, val + 1);
    }
    if val > 0 {
        lemma_fundamental_div_mod_converse(val - 1, m, 0, val - 1);
    }
    lemma_fundamental_div_mod_converse(val as int, m, 0, val as int);
}

impl Position {
    /// The position with the given coordinates. A negative coordinate wraps
    /// around to the upper half of the `u8` range.
    pub fn new(x: i8, y: i8) -> (p: Position)
        ensures
            p.x == if x >= 0 { x as int } else { x + 256 },
            p.y == if y >= 0 { y as int } else { y + 256 },
    {
        assert(x >= 0 ==> (x as u8) == x) by (bit_vector);
        assert(x < 0 ==> (x as u8) == x + 256) by (bit_vector);
        assert(y >= 0 ==> (y as u8) == y) by (bit_vector);
        assert(y < 0 ==> (y as u8) == y + 256) by (bit_vector);
        Position { x: #[verifier::truncate] (x as u8), y: #[verifier::truncate] (y as u8) }
    }

    /// The middle of the visible board.
    pub fn new_center() -> (p: Position)
        ensures
            p == Position::spec_center(),
    {
        Position { x: BOARD_WIDTH / 2, y: BOARD_HEIGHT / 2 }
    }

    pub open spec fn spec_center() -> Position {
        Position { x: 4, y: 17 }
    }

    /// The position reached from the middle of the visible board by the
    /// given steps.
    pub fn new_offset(x: i8, y: i8) -> (p: Position)
        ensures
            p == Position::spec_center().spec_offset(x, y),
    {
        let mut pos = Position::new_center();
        pos.offset(x, y);
        pos
    }

    /// This position moved by `x` and `y` on the visible board.
    pub open spec fn spec_offset(self, x: i8, y: i8) -> Position {
        Position {
            x: spec_calc_offset(self.x, x, BOARD_WIDTH),
            y: spec_calc_offset(self.y, y, BOARD_HEIGHT),
        }
    }

    /// This position moved by `x` and `y` on the bordered grid of the
    /// falling-block game, which is three cells wider on each side and three
    /// cells taller than the visible board.
    pub open spec fn spec_offset_blockdrop(self, x: i8, y: i8) -> Position {
        Position {
            x: spec_calc_offset(self.x, x, 15),
            y: spec_calc_offset(self.y, y, 37),
        }
    }

    /// Moves the position by `x` and `y` on the visible board.
    pub fn offset(&mut self, x: i8, y: i8)
        ensures
            *final(self) == old(self).spec_offset(x, y),
    {
        self.x = Position::calc_offset(self.x, x, BOARD_WIDTH);
        self.y = Position::calc_offset(self.y, y, BOARD_HEIGHT);
    }

    /// Moves the position by `x` and `y` on the bordered grid of the
    /// falling-block game.
    pub fn offset_blockdrop(&mut self, x: i8, y: i8)
        ensures
            *final(self) == old(self).spec_offset_blockdrop(x, y),
    {
        self.x = Position::calc_offset(self.x, x, BOARD_WIDTH + 3 * 2);
        self.y = Position::calc_offset(self.y, y, BOARD_HEIGHT + 3);
    }

    /// One coordinate moved by `offset` on an axis of `max_val` cells.
    pub fn calc_offset(val: u8, offset: i8, max_val: u8) -> (r: u8)
        requires
            0 < max_val,
        ensures
            r == spec_calc_offset(val, offset, max_val),
    {
        if (val == 0 && offset < 0) || (val >= max_val - 1 && offset > 0) {
            val
        } else {
            let max: i16 = max_val as i16;
            let sum: i16 = val as i16 + offset as i16;
            // A negative sum is lifted by whole axis lengths before the
            // remainder is taken, so that the remainder is never negative.
            let lifted: i16 = if sum < 0 { sum + 128 * max } else { sum };
            proof {
                lemma_mod_multiples_vanish(128, sum as int, max as int);
            }
            (lifted % max) as u8
        }
    }
}

/// A coloured cell, as handed to a front end for drawing.
#[derive(Clone, Copy, Debug, PartialEq, Eq, Structural)]
pub struct Block {
    pub position: Position,
    pub colour: Colour,
}

/// A key that is not a direction.
#[derive(Clone, Copy, Debug, PartialEq, Eq, Structural)]
pub enum ControlKey {
    Space,
}

/// A direction key, of the first or of the second player.
#[allow(non_camel_case_types)]
#[derive(Clone, Copy, Debug, PartialEq, Eq, Structural)]
pub enum Direction {
    UP,
    DOWN,
    LEFT,
    RIGHT,
    SECOND_UP,
    SECOND_DOWN,
    SECOND_LEFT,
    SECOND_RIGHT,
}

impl Direction {
    /// Whether this is one of the four directions of the first player.
    /// Turning is defined for these only.
    pub open spec fn is_primary(self) -> bool {
        self == Direction::UP || self == Direction::DOWN || self == Direction::LEFT || self
            == Direction::RIGHT
    }

    /// The direction a quarter turn clockwise from this one.
    pub open spec fn spec_next_cw(self) -> Direction {
        match self {
            Direction::UP => Direction::RIGHT,
            Direction::RIGHT => Direction::DOWN,
            Direction::DOWN => Direction::LEFT,
            Direction::LEFT => Direction::UP,
            other => other,
        }
    }

    /// The direction facing this one.
    pub open spec fn spec_opposite(self) -> Direction {
        match self {
            Direction::UP => Direction::DOWN,
            Direction::DOWN => Direction::UP,
            Direction::LEFT => Direction::RIGHT,
            Direction::RIGHT => Direction::LEFT,
            other => other,
        }
    }

    /// The direction a quarter turn clockwise from this one.
    pub fn next_cw(&self) -> (d: Direction)
        requires
            self.is_primary(),
        ensures
            d == self.spec_next_cw(),
    {
        match self {
            Direction::UP => Direction::RIGHT,
            Direction::RIGHT => Direction::DOWN,
            Direction::DOWN => Direction::LEFT,
            _ => Direction::UP,
        }
    }

    /// The direction facing this one. The receiver is left as it was.
    pub fn opposite(&mut self) -> (d: Direction)
        requires
            old(self).is_primary(),
        ensures
            d == old(self).spec_opposite(),
            *final(self) == *old(self),
    {
        match self {
            Direction::UP => Direction::DOWN,
            Direction::DOWN => Direction::UP,
            Direction::LEFT => Direction::RIGHT,
            _ => Direction::LEFT,
        }
    }
}

/// A quarter turn of one of the four directions gives another of them, and
/// four quarter turns give the first again; two quarter turns face the other
/// way, and facing about twice changes nothing.
pub proof fn lemma_turns(d: Direction)
    requires
        d.is_primary(),
    ensures
        d.spec_next_cw().is_primary(),
        d.spec_next_cw() != d,
        d.spec_next_cw().spec_next_cw().spec_next_cw().spec_next_cw() == d,
        d.spec_next_cw().spec_next_cw() == d.spec_opposite(),
        d.spec_opposite().spec_opposite() == d,
{
}

/// What a front end asks of a game: to start, to take inputs and ticks, and
/// to say what there is to draw.
///
/// A game says which of its states are sound, and when a state has room for
/// another step: a score can only count so far. A step is asked for in a
/// state that has room, and leaves the state sound. A game also says what it
/// shows, and hands out exactly that.
pub trait GameT: Sized {
    /// Whether the state is one of a game.
    spec fn valid(&self) -> bool;

    /// Whether the state is one of a game that can take another input or
    /// tick.
    spec fn ready(&self) -> bool;

    /// A state that can take another input or tick is one of a game.
    proof fn lemma_ready_is_valid(&self)
        ensures
            self.ready() ==> self.valid(),
    ;

    /// A new game.
    fn new() -> (game: Self)
        ensures
            game.valid(),
    ;

    /// Starts the game afresh.
    fn init(&mut self)
        ensures
            old(self).valid() ==> final(self).valid(),
    ;

    /// Whether the game can take another input or tick.
    fn is_ready(&self) -> (ready: bool)
        ensures
            ready == self.ready(),
    ;

    /// Handles the input of a direction.
    fn update(&mut self, dir: Direction)
        requires
            old(self).ready(),
        ensures
            final(self).valid(),
    ;

    /// Handles the input of another key. A game without such keys does
    /// nothing.
    fn update_key(&mut self, key: ControlKey)
        requires
            old(self).valid(),
        ensures
            final(self).valid(),
    {
    }

    /// Lets the game go on by one step.
    fn next_tick(&mut self)
        requires
            old(self).ready(),
        ensures
            final(self).valid(),
    ;

    /// What the game shows as its ball: nothing, unless the game says
    /// otherwise.
    open spec fn drawn_ball(&self) -> Option<Block> {
        None
    }

    /// What the game shows as its blocks beside its ball, its paddles and
    /// its board: nothing, unless the game says otherwise.
    open spec fn drawn_blocks(&self) -> Seq<Block> {
        Seq::empty()
    }

    /// What the game shows as its paddles: nothing, unless the game says
    /// otherwise.
    open spec fn drawn_paddle_blocks(&self) -> Seq<Block> {
        Seq::empty()
    }

    /// What the game shows as its board, apart from its other blocks:
    /// nothing, unless the game says otherwise.
    open spec fn drawn_board_blocks(&self) -> Seq<Block> {
        Seq::empty()
    }

    /// The ball, if the game has one. A game that shows no ball hands out
    /// none; a game that shows one says so where it hands it out.
    fn ball(&self) -> (ball: Option<Block>)
        ensures
            self.drawn_ball() is None ==> ball == self.drawn_ball(),
    {
        None
    }

    /// The blocks of the game, if it has any beside its ball, its paddles
    /// and its board. A game that shows no such blocks hands out none; a
    /// game that shows some says so where it hands them out.
    fn blocks(&self) -> (blocks: Vec<Block>)
        requires
            self.valid(),
        ensures
            self.drawn_blocks().len() == 0 ==> blocks@ == self.drawn_blocks(),
    {
        let blocks: Vec<Block> = Vec::new();
        assert(self.drawn_blocks().len() == 0 ==> blocks@ =~= self.drawn_blocks());
        blocks
    }

    /// The blocks of the paddles, if the game has any. A game that shows no
    /// paddles hands out none; a game that shows some says so where it hands
    /// them out.
    fn paddle_blocks(&self) -> (blocks: Vec<Block>)
        requires
            self.valid(),
        ensures
            self.drawn_paddle_blocks().len() == 0 ==> blocks@ == self.drawn_paddle_blocks(),
    {
        let blocks: Vec<Block> = Vec::new();
        assert(self.drawn_paddle_blocks().len() == 0 ==> blocks@ =~= self.drawn_paddle_blocks());
        blocks
    }

    /// The blocks of the board, if the game shows one apart from its other
    /// blocks. A game that shows no board of its own hands out none; a game
    /// that shows one says so where it hands it out.
    fn board_blocks(&self) -> (blocks: Vec<Block>)
        ensures
            self.drawn_board_blocks().len() == 0 ==> blocks@ == self.drawn_board_blocks(),
    {
        let blocks: Vec<Block> = Vec::new();
        assert(self.drawn_board_blocks().len() == 0 ==> blocks@ =~= self.drawn_board_blocks());
        blocks
    }
}

} // verus!
