//! The paddle game for two players.
//!
//! A ball moves between two paddles, one in the top row and one in the
//! bottom row. A paddle sends the ball back, at an angle that depends on
//! where the ball meets it; a ball that gets past a paddle scores for the
//! other side and starts again from the middle.

use vstd::prelude::*;
use crate::constants::{Colour, PADDLE_WIDTH};
use crate::game::{Block, Direction, GameT, Position};

verus! {

const WIDTH: usize = 9;

const HEIGHT: usize = 34;

const WIDTH_U8: u8 = 9;

const HEIGHT_U8: u8 = 34;

/// What moves the ball on one tick: columns and rows.
pub type Velocity = (i8, i8);

/// How often each side has scored.
#[derive(Clone, Copy, Debug)]
struct Score {
    upper: usize,
    lower: usize,
}

#[derive(Clone, Copy)]
struct Ball {
    pos: Position,
    // Not a position, more like a directional vector
    direction: Velocity,
}

/// The state of a game of pong.
pub struct PongModel {
    pub upper_score: nat,
    pub lower_score: nat,
    pub ball: Position,
    pub direction: Velocity,
    pub paddles: (nat, nat),
    pub speed: u64,
}

/// The coordinate that a step of `v` from `c` gives: the sum, taken modulo
/// 256 where it is negative.
pub open spec fn stepped(c: u8, v: i8) -> u8 {
    if c + v >= 0 {
        (c + v) as u8
    } else {
        (c + v + 256) as u8
    }
}

/// The position one step of `v` from `pos`.
pub open spec fn spec_add_velocity(pos: Position, v: Velocity) -> Position {
    Position { x: stepped(pos.x, v.0), y: stepped(pos.y, v.1) }
}

/// Where on a paddle the ball at `ball` is: the distance from the left end
/// of the upper paddle, if the ball is in one of the two top rows and over
/// that paddle; else the distance from the left end of the lower paddle, if
/// the ball is in one of the two bottom rows and over that one; else
/// nothing.
pub open spec fn spec_hit_paddle(ball: (u8, u8), paddles: (nat, nat)) -> Option<nat> {
    let (x, y) = ball;
    if y <= 1 && paddles.0 <= x < paddles.0 + 5 {
        Some((x - paddles.0) as nat)
    } else if y >= 32 && paddles.1 <= x < paddles.1 + 5 {
        Some((x - paddles.1) as nat)
    } else {
        None
    }
}

/// The way the ball goes after it has met a paddle at `hit` cells from the
/// left end of the paddle. It always turns back. In the middle of the paddle
/// it goes on straight up or down. A ball that comes at an angle keeps its
/// angle when it meets the far half of the paddle, and goes back where it
/// came from when it meets the near half. A ball that comes straight leaves
/// towards the side on which it met the paddle.
pub open spec fn bounce(v: Velocity, hit: nat) -> Velocity {
    let (vx, vy) = v;
    if hit == 2 {
        (0i8, (-vy) as i8)
    } else if vx == 0 {
        (if hit < 2 {
            -1i8
        } else {
            1i8
        }, (-vy) as i8)
    } else if (vx < 0) == (hit < 2) {
        (vx, (-vy) as i8)
    } else {
        ((-vx) as i8, (-vy) as i8)
    }
}

impl PongModel {
    /// Whether the state is one of a game: the ball is on the board and
    /// moves by one row and at most one column, and the paddles are on the
    /// board.
    pub open spec fn wf(self) -> bool {
        &&& self.ball.x < 9
        &&& self.ball.y < 34
        &&& -1 <= self.direction.0 <= 1
        &&& self.direction.1 == 1 || self.direction.1 == -1
        &&& self.paddles.0 + 5 <= 9
        &&& self.paddles.1 + 5 <= 9
    }

    /// The state at the start of a game.
    pub open spec fn start() -> PongModel {
        PongModel {
            upper_score: 0,
            lower_score: 0,
            ball: Position { x: 4, y: 20 },
            direction: (0i8, 1i8),
            paddles: (2, 2),
            speed: 0,
        }
    }

    /// The state with the score reset and the ball back at its start.
    pub open spec fn restarted(self) -> PongModel {
        PongModel {
            upper_score: 0,
            lower_score: 0,
            ball: Position { x: 4, y: 20 },
            direction: (0i8, 1i8),
            ..self
        }
    }

    /// The state after an input: left and right move the upper paddle, the
    /// same keys of the second player move the lower paddle, by one cell and
    /// not beyond the board.
    pub open spec fn input(self, dir: Direction) -> PongModel {
        match dir {
            Direction::RIGHT => if self.paddles.0 + 5 < 9 {
                PongModel { paddles: (self.paddles.0 + 1, self.paddles.1), ..self }
            } else {
                self
            },
            Direction::LEFT => if self.paddles.0 >= 1 {
                PongModel { paddles: ((self.paddles.0 - 1) as nat, self.paddles.1), ..self }
            } else {
                self
            },
            Direction::SECOND_RIGHT => if self.paddles.1 + 5 < 9 {
                PongModel { paddles: (self.paddles.0, self.paddles.1 + 1), ..self }
            } else {
                self
            },
            Direction::SECOND_LEFT => if self.paddles.1 >= 1 {
                PongModel { paddles: (self.paddles.0, (self.paddles.1 - 1) as nat), ..self }
            } else {
                self
            },
            _ => self,
        }
    }

    /// The state after one tick.
    ///
    /// The ball moves one step and is held on the board. In the first or
    /// last column it turns back sideways. Where it meets a paddle it
    /// bounces. Where it reaches the top or bottom row beside the paddle,
    /// the other side scores, and the ball starts again from the middle.
    pub open spec fn tick(self) -> PongModel {
        let (vx, vy) = self.direction;
        let moved = spec_add_velocity(self.ball, self.direction);
        let x = if moved.x > 8 {
            8u8
        } else {
            moved.x
        };
        let turned: Velocity = if x == 0 || x == 8 {
            ((-vx) as i8, vy)
        } else {
            (vx, vy)
        };
        let y = if moved.y > 33 {
            33u8
        } else {
            moved.y
        };
        match spec_hit_paddle((x, y), self.paddles) {
            Some(hit) => PongModel {
                ball: Position { x, y },
                direction: bounce(turned, hit),
                ..self
            },
            None => if y == 0 {
                PongModel {
                    lower_score: self.lower_score + 1,
                    speed: 0,
                    direction: (1i8, 1i8),
                    ball: Position { x: 4, y: 17 },
                    ..self
                }
            } else if y == 33 {
                PongModel {
                    upper_score: self.upper_score + 1,
                    speed: 0,
                    direction: (1i8, 1i8),
                    ball: Position { x: 4, y: 17 },
                    ..self
                }
            } else {
                PongModel { ball: Position { x, y }, direction: turned, ..self }
            },
        }
    }
}

/// Inputs and ticks keep a state one of a game. An input moves nothing but
/// a paddle, and a tick leaves the paddles where they are and takes no point
/// away.
pub proof fn lemma_pong_steps(state: PongModel, dir: Direction)
    requires
        state.wf(),
    ensures
        state.input(dir).wf(),
        state.input(dir).ball == state.ball,
        state.input(dir).direction == state.direction,
        state.input(dir).upper_score == state.upper_score,
        state.input(dir).lower_score == state.lower_score,
        state.tick().wf(),
        state.tick().paddles == state.paddles,
        state.tick().upper_score >= state.upper_score,
        state.tick().lower_score >= state.lower_score,
        state.tick().upper_score + state.tick().lower_score <= state.upper_score
            + state.lower_score + 1,
{
}

/// The state of a game of pong.
#[derive(Clone, Copy)]
pub struct PongG {
    score: Score,
    ball: Ball,
    paddles: (usize, usize),
    pub speed: u64,
}

impl View for PongG {
    type V = PongModel;

    closed spec fn view(&self) -> PongModel {
        PongModel {
            upper_score: self.score.upper as nat,
            lower_score: self.score.lower as nat,
            ball: self.ball.pos,
            direction: self.ball.direction,
            paddles: (self.paddles.0 as nat, self.paddles.1 as nat),
            speed: self.speed,
        }
    }
}

impl PongG {
    /// A new game.
    pub fn new() -> (game: PongG)
        ensures
            game@ == PongModel::start(),
            game@.wf(),
    {
        PongG {
            score: Score { upper: 0, lower: 0 },
            ball: Ball { pos: Position::new(4, 20), direction: (0, 1) },
            paddles: (PADDLE_WIDTH / 2, PADDLE_WIDTH / 2),
            speed: 0,
        }
    }

    /// Resets the score and puts the ball back at its start. The paddles
    /// stay where they are.
    pub fn init(&mut self)
        ensures
            final(self)@ == old(self)@.restarted(),
    {
        self.score = Score { upper: 0, lower: 0 };
        self.ball = Ball { pos: Position::new(4, 20), direction: (0, 1) };
    }

    /// Whether the state is one of a game.
    pub fn is_valid(&self) -> (valid: bool)
        ensures
            valid == self@.wf(),
    {
        let (vx, vy) = self.ball.direction;
        self.ball.pos.x < WIDTH_U8 && self.ball.pos.y < HEIGHT_U8 && -1 <= vx && vx <= 1 && (vy == 1
            || vy == -1) && self.paddles.0 <= WIDTH - PADDLE_WIDTH && self.paddles.1 <= WIDTH
            - PADDLE_WIDTH
    }

    /// How often the upper and the lower side have scored.
    pub fn score(&self) -> (score: (usize, usize))
        ensures
            score.0 == self@.upper_score,
            score.1 == self@.lower_score,
    {
        (self.score.upper, self.score.lower)
    }

    /// Moves a paddle as the input `dir` asks.
    pub fn update(&mut self, dir: Direction)
        requires
            old(self)@.wf(),
        ensures
            final(self)@ == old(self)@.input(dir),
            final(self)@.wf(),
    {
        match dir {
            Direction::RIGHT => {
                if self.paddles.0 + PADDLE_WIDTH < WIDTH {
                    self.paddles.0 += 1;
                }
            },
            Direction::LEFT => {
                if self.paddles.0 >= 1 {
                    self.paddles.0 -= 1;
                }
            },
            Direction::SECOND_RIGHT => {
                if self.paddles.1 + PADDLE_WIDTH < WIDTH {
                    self.paddles.1 += 1;
                }
            },
            Direction::SECOND_LEFT => {
                if self.paddles.1 >= 1 {
                    self.paddles.1 -= 1;
                }
            },
            Direction::UP | Direction::DOWN => (),
            Direction::SECOND_UP | Direction::SECOND_DOWN => (),
        }
    }

    /// Moves the ball by one step.
    pub fn next_tick(&mut self)
        requires
            old(self)@.wf(),
            old(self)@.upper_score < usize::MAX,
            old(self)@.lower_score < usize::MAX,
        ensures
            final(self)@ == old(self)@.tick(),
            final(self)@.wf(),
    {
        let (vx, vy) = self.ball.direction;
        let new_pos = add_velocity(self.ball.pos, self.ball.direction);
        let (x, y) = (new_pos.x, new_pos.y);
        let x = if x > WIDTH_U8 - 1 {
            WIDTH_U8 - 1
        } else {
            x
        };
        if x == 0 || x == WIDTH_U8 - 1 {
            // Hit wall, bounce back
            self.ball.direction = (-vx, vy);
        }
        let y = if y > HEIGHT_U8 - 1 {
            HEIGHT_U8 - 1
        } else {
            y
        };
        let (x, y) = if let Some(paddle_hit) = hit_paddle((x, y), self.paddles) {
            // Hit paddle, bounce back
            let (vx, vy) = self.ball.direction;
            self.ball.direction = if paddle_hit == 2 {
                // In the middle it bounces vertically
                (0, -vy)
            } else if vx == 0 {
                // A vertical ball will bounce towards the side where it hit the paddle
                if paddle_hit < 2 {
                    (-1, -vy)
                } else {
                    (1, -vy)
                }
            } else if (vx < 0) == (paddle_hit < 2) {
                // On the far side of the paddle, the ball bounces off as in real life
                (vx, -vy)
            } else {
                // On the close side of the paddle, the ball bounces back to where it came from
                (-vx, -vy)
            };
            (x, y)
        } else if y == 0 || y == HEIGHT_U8 - 1 {
            if y == 0 {
                self.score.lower += 1;
            } else {
                self.score.upper += 1;
            }
            // Hit top or bottom, missed the paddle
            self.speed = 0;
            self.ball.direction = (1, 1);
            (WIDTH_U8 / 2, HEIGHT_U8 / 2)
        } else {
            (x, y)
        };
        self.ball.pos = Position::new(x as i8, y as i8);
    }

    /// The ball, for drawing.
    pub fn ball(&self) -> (ball: Option<Block>)
        ensures
            ball == Some(Block { position: self@.ball, colour: Colour::Green }),
    {
        Some(Block { position: self.ball.pos, colour: Colour::Green })
    }

    /// The paddles, for drawing: the five blocks of the upper paddle in the
    /// top row, then the five of the lower paddle in the bottom row, each
    /// from left to right.
    pub fn paddle_blocks(&self) -> (blocks: Vec<Block>)
        requires
            self@.wf(),
        ensures
            blocks@ == spec_paddle_blocks(self@.paddles),
    {
        let mut blocks: Vec<Block> = Vec::new();
        let mut x: usize = 0;
        while x < PADDLE_WIDTH
            invariant
                x <= PADDLE_WIDTH,
                self@.wf(),
                blocks@ == spec_paddle_blocks(self@.paddles).subrange(0, x as int),
            decreases PADDLE_WIDTH - x,
        {
            blocks.push(
                Block {
                    position: Position::new(self.paddles.0 as i8 + x as i8, 0),
                    colour: Colour::Green,
                },
            );
            assert(blocks@ =~= spec_paddle_blocks(self@.paddles).subrange(0, x + 1));
            x += 1;
        }
        let mut x: usize = 0;
        while x < PADDLE_WIDTH
            invariant
                x <= PADDLE_WIDTH,
                self@.wf(),
                blocks@ == spec_paddle_blocks(self@.paddles).subrange(0, 5 + x),
            decreases PADDLE_WIDTH - x,
        {
            blocks.push(
                Block {
                    position: Position::new(self.paddles.1 as i8 + x as i8, (HEIGHT - 1) as i8),
                    colour: Colour::Green,
                },
            );
            assert(blocks@ =~= spec_paddle_blocks(self@.paddles).subrange(0, 5 + x + 1));
            x += 1;
        }
        assert(blocks@ =~= spec_paddle_blocks(self@.paddles));
        blocks
    }
}

/// The blocks of the two paddles.
pub open spec fn spec_paddle_blocks(paddles: (nat, nat)) -> Seq<Block> {
    Seq::new(
        10,
        |i: int|
            if i < 5 {
                Block {
                    position: Position { x: (paddles.0 + i) as u8, y: 0 },
                    colour: Colour::Green,
                }
            } else {
                Block {
                    position: Position { x: (paddles.1 + i - 5) as u8, y: 33 },
                    colour: Colour::Green,
                }
            },
    )
}

/// The position one step of `v` from `pos`.
pub fn add_velocity(pos: Position, v: Velocity) -> (moved: Position)
    requires
        pos.x <= 127,
        pos.y <= 127,
        -128 <= pos.x + v.0 <= 127,
        -128 <= pos.y + v.1 <= 127,
    ensures
        moved == spec_add_velocity(pos, v),
{
    let (vx, vy) = v;
    let (x, y) = (pos.x, pos.y);
    Position::new((x as i8) + vx, (y as i8) + vy)
}

/// Where on a paddle the ball at `ball` is, if it is on one.
pub fn hit_paddle(ball: (u8, u8), paddles: (usize, usize)) -> (hit: Option<usize>)
    ensures
        match spec_hit_paddle(ball, (paddles.0 as nat, paddles.1 as nat)) {
            Some(at) => hit == Some(at as usize),
            None => hit is None,
        },
{
    let (x, y) = ball;
    if y <= 1 && paddles.0 <= (x as usize) && (x as usize) < paddles.0 + PADDLE_WIDTH {
        Some(x as usize - paddles.0)
    } else if y >= HEIGHT_U8 - 2 && paddles.1 <= (x as usize) && (x as usize) < paddles.1
        + PADDLE_WIDTH {
        Some(x as usize - paddles.1)
    } else {
        None
    }
}

impl GameT for PongG {
    open spec fn valid(&self) -> bool {
        self@.wf()
    }

    open spec fn ready(&self) -> bool {
        self@.wf() && self@.upper_score < usize::MAX && self@.lower_score < usize::MAX
    }

    proof fn lemma_ready_is_valid(&self) {
    }

    fn new() -> (game: PongG)
        ensures
            game@ == PongModel::start(),
    {
        PongG::new()
    }

    fn init(&mut self)
        ensures
            final(self)@ == old(self)@.restarted(),
    {
        PongG::init(self);
    }

    fn is_ready(&self) -> (ready: bool) {
        self.is_valid() && self.score.upper < usize::MAX && self.score.lower < usize::MAX
    }

    fn update(&mut self, dir: Direction)
        ensures
            final(self)@ == old(self)@.input(dir),
    {
        PongG::update(self, dir);
    }

    fn next_tick(&mut self)
        ensures
            final(self)@ == old(self)@.tick(),
    {
        PongG::next_tick(self);
    }

    /// The ball, in green.
    open spec fn drawn_ball(&self) -> Option<Block> {
        Some(Block { position: self@.ball, colour: Colour::Green })
    }

    /// The blocks of the two paddles.
    open spec fn drawn_paddle_blocks(&self) -> Seq<Block> {
        spec_paddle_blocks(self@.paddles)
    }

    fn ball(&self) -> (ball: Option<Block>)
        ensures
            ball == self.drawn_ball(),
    {
        PongG::ball(self)
    }

    fn paddle_blocks(&self) -> (blocks: Vec<Block>)
        ensures
            blocks@ == self.drawn_paddle_blocks(),
    {
        PongG::paddle_blocks(self)
    }
}

} // verus!
