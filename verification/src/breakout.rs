//! The brick game.
//!
//! A ball flies between a wall of bricks at the top of the board and a
//! paddle in the bottom row. A brick that the ball meets is removed and
//! counted, and the ball bounces off it. The paddle sends the ball back at
//! an angle that depends on where the ball meets it. The game is over when
//! the ball reaches the bottom row.

use vstd::prelude::*;
use crate::constants::{Colour, PADDLE_WIDTH, PADDLE_WIDTH_U32};
use crate::game::{Block, Direction, GameT, Position};

verus! {

const WIDTH: usize = 9;

const HEIGHT: usize = 34;

const WIDTH_U32: u32 = 9;

const WIDTH_I8: i8 = 9;

const HEIGHT_I8: i8 = 34;

/// Number of rows of bricks at the start of a game.
pub const WALL_HEIGHT: usize = 15;

/// Number of bricks at the start of a game.
pub const WALL_CELLS: usize = 135;

/// The value of a cell that holds a brick.
pub const BRICK: u8 = 0xFF;

/// The bricks of a board, column by column.
pub type Bricks = Seq<Seq<u8>>;

/// Whether `(x, y)` is a cell of the board that holds a brick.
pub open spec fn brick(bricks: Bricks, x: int, y: int) -> bool {
    0 <= x < 9 && 0 <= y < 34 && bricks[x][y] == BRICK
}

/// The board with a wall of bricks in its top rows and nothing below.
pub open spec fn wall() -> Bricks {
    Seq::new(
        9,
        |x: int|
            Seq::new(
                34,
                |y: int|
                    if y < 15 {
                        BRICK
                    } else {
                        0u8
                    },
            ),
    )
}

/// The board without bricks.
pub open spec fn no_bricks() -> Bricks {
    Seq::new(9, |x: int| Seq::new(34, |y: int| 0u8))
}

/// The velocity after the ball has bounced off something on the given
/// sides, one after the other: above or below turns it back vertically, left
/// or right turns it back sideways.
pub open spec fn deflected(v: (i32, i32), sides: Seq<Direction>) -> (i32, i32)
    decreases sides.len(),
{
    if sides.len() == 0 {
        v
    } else {
        let before = deflected(v, sides.drop_last());
        match sides.last() {
            Direction::UP | Direction::DOWN => (before.0, (-before.1) as i32),
            Direction::LEFT | Direction::RIGHT => ((-before.0) as i32, before.1),
            _ => before,
        }
    }
}

/// The velocity after the ball has met the paddle at `offset` cells right
/// of the middle of the paddle. It always turns back up. In the middle it
/// goes straight up. A ball that comes at an angle keeps its angle when it
/// meets the far half of the paddle, and goes back where it came from when
/// it meets the near half. A ball that comes straight leaves towards the
/// side on which it met the paddle.
pub open spec fn paddle_bounce(v: (i32, i32), offset: int) -> (i32, i32) {
    let (vx, vy) = v;
    if offset == 0 {
        (0i32, (-vy) as i32)
    } else if vx == 0 {
        (if offset < 0 {
            -1i32
        } else {
            1i32
        }, (-vy) as i32)
    } else if (vx < 0) == (offset < 0) {
        (vx, (-vy) as i32)
    } else {
        ((-vx) as i32, (-vy) as i32)
    }
}

/// A coordinate held between 0 and `last`.
pub open spec fn held(c: int, last: int) -> int {
    if c < 0 {
        0
    } else if c > last {
        last
    } else {
        c
    }
}

/// The state of a game of breakout.
pub struct BreakoutModel {
    pub paddle_pos: nat,
    pub ball_pos: Position,
    pub ball_v: (i32, i32),
    pub board: Bricks,
    pub time: u32,
    pub score: nat,
    pub game_over: bool,
}

impl BreakoutModel {
    /// Whether the state is one of a game: the ball is on the board and
    /// moves by one row and at most one column, and the paddle is on the
    /// board.
    pub open spec fn wf(self) -> bool {
        &&& self.ball_pos.x < 9
        &&& self.ball_pos.y < 34
        &&& -1 <= self.ball_v.0 <= 1
        &&& self.ball_v.1 == 1 || self.ball_v.1 == -1
        &&& self.paddle_pos + 5 <= 9
        &&& self.board.len() == 9
        &&& forall|x: int| 0 <= x < 9 ==> (#[trigger] self.board[x]).len() == 34
    }

    /// The state with the ball at its start and the wall rebuilt. The paddle
    /// stays where it is.
    pub open spec fn restarted(self) -> BreakoutModel {
        BreakoutModel {
            paddle_pos: self.paddle_pos,
            ball_pos: Position { x: 6, y: 24 },
            ball_v: (0i32, 1i32),
            board: wall(),
            time: 0,
            score: 0,
            game_over: false,
        }
    }

    /// The state after an input: left and right move the paddle by one cell,
    /// not beyond the board. Nothing moves once the game is over.
    pub open spec fn input(self, dir: Direction) -> BreakoutModel {
        if self.game_over {
            self
        } else if dir == Direction::LEFT && self.paddle_pos > 0 {
            BreakoutModel { paddle_pos: (self.paddle_pos - 1) as nat, ..self }
        } else if dir == Direction::RIGHT && self.paddle_pos + 5 < 9 {
            BreakoutModel { paddle_pos: self.paddle_pos + 1, ..self }
        } else {
            self
        }
    }

    /// Whether the ball flies to the left and the cell left of it holds a
    /// brick.
    pub open spec fn hits_left(self) -> bool {
        self.ball_v.0 < 0 && brick(self.board, self.ball_pos.x - 1, self.ball_pos.y as int)
    }

    /// Whether the ball flies to the right and the cell right of it holds a
    /// brick.
    pub open spec fn hits_right(self) -> bool {
        self.ball_v.0 > 0 && brick(self.board, self.ball_pos.x + 1, self.ball_pos.y as int)
    }

    /// Whether the ball flies up and the cell above it holds a brick.
    pub open spec fn hits_up(self) -> bool {
        self.ball_v.1 < 0 && brick(self.board, self.ball_pos.x as int, self.ball_pos.y - 1)
    }

    /// Whether the ball flies down and the cell below it holds a brick.
    pub open spec fn hits_down(self) -> bool {
        self.ball_v.1 > 0 && brick(self.board, self.ball_pos.x as int, self.ball_pos.y + 1)
    }

    /// Whether the ball meets a brick beside, above or below it.
    pub open spec fn hits_side(self) -> bool {
        self.hits_left() || self.hits_right() || self.hits_up() || self.hits_down()
    }

    /// Whether the ball meets no brick beside, above or below it, and flies
    /// up and to the right into a brick.
    pub open spec fn hits_up_right(self) -> bool {
        !self.hits_side() && self.ball_v.0 > 0 && self.ball_v.1 < 0 && brick(
            self.board,
            self.ball_pos.x + 1,
            self.ball_pos.y - 1,
        )
    }

    /// Whether the ball meets no brick beside, above or below it, and flies
    /// up and to the left into a brick.
    pub open spec fn hits_up_left(self) -> bool {
        !self.hits_side() && self.ball_v.0 < 0 && self.ball_v.1 < 0 && brick(
            self.board,
            self.ball_pos.x - 1,
            self.ball_pos.y - 1,
        )
    }

    /// The sides on which the ball meets a brick: left, right, up, down, in
    /// this order, for the bricks beside, above and below it; for a brick
    /// that it meets at a corner, the side and then up.
    pub open spec fn hit_sides(self) -> Seq<Direction> {
        let none = Seq::<Direction>::empty();
        let left = if self.hits_left() {
            none.push(Direction::LEFT)
        } else {
            none
        };
        let right = if self.hits_right() {
            left.push(Direction::RIGHT)
        } else {
            left
        };
        let up = if self.hits_up() {
            right.push(Direction::UP)
        } else {
            right
        };
        let down = if self.hits_down() {
            up.push(Direction::DOWN)
        } else {
            up
        };
        if self.hits_up_right() {
            down.push(Direction::RIGHT).push(Direction::UP)
        } else if self.hits_up_left() {
            down.push(Direction::LEFT).push(Direction::UP)
        } else {
            down
        }
    }

    /// Whether the brick at `(x, y)` is one that the ball meets.
    pub open spec fn is_hit(self, x: int, y: int) -> bool {
        let (bx, by) = (self.ball_pos.x as int, self.ball_pos.y as int);
        ||| self.hits_left() && x == bx - 1 && y == by
        ||| self.hits_right() && x == bx + 1 && y == by
        ||| self.hits_up() && x == bx && y == by - 1
        ||| self.hits_down() && x == bx && y == by + 1
        ||| self.hits_up_right() && x == bx + 1 && y == by - 1
        ||| self.hits_up_left() && x == bx - 1 && y == by - 1
    }

    /// The number of bricks that the ball meets.
    pub open spec fn hit_count(self) -> nat {
        (if self.hits_left() {
            1nat
        } else {
            0nat
        }) + (if self.hits_right() {
            1nat
        } else {
            0nat
        }) + (if self.hits_up() {
            1nat
        } else {
            0nat
        }) + (if self.hits_down() {
            1nat
        } else {
            0nat
        }) + (if self.hits_up_right() || self.hits_up_left() {
            1nat
        } else {
            0nat
        })
    }

    /// The state with the bricks that the ball meets removed and counted.
    pub open spec fn without_hit_bricks(self) -> BreakoutModel {
        BreakoutModel {
            board: Seq::new(
                9,
                |x: int|
                    Seq::new(
                        34,
                        |y: int|
                            if self.is_hit(x, y) {
                                0u8
                            } else {
                                self.board[x][y]
                            },
                    ),
            ),
            score: self.score + self.hit_count(),
            ..self
        }
    }

    /// The velocity with which the ball goes on: deflected by the bricks it
    /// meets, turned back by the side of the board and by its top, and sent
    /// back up by the paddle where the ball is in the row above the paddle
    /// and over it.
    pub open spec fn next_velocity(self) -> (i32, i32) {
        let (x, y) = (self.ball_pos.x as int, self.ball_pos.y as int);
        let v1 = deflected(self.ball_v, self.hit_sides());
        let v2 = if (v1.0 < 0 && x == 0) || (v1.0 > 0 && x + 1 == 9) {
            ((-v1.0) as i32, v1.1)
        } else {
            v1
        };
        let v3 = if v2.1 < 0 && y == 0 {
            (v2.0, (-v2.1) as i32)
        } else {
            v2
        };
        if v3.1 > 0 && y + 2 == 34 && self.paddle_pos <= x <= self.paddle_pos + 5 {
            paddle_bounce(v3, x - (self.paddle_pos + 2))
        } else {
            v3
        }
    }

    /// The state after one tick: the bricks that the ball meets are removed
    /// and counted, and the ball goes on with its new velocity, held on the
    /// board. A ball in the bottom row ends the game instead of moving on.
    /// Nothing moves once the game is over.
    pub open spec fn tick(self) -> BreakoutModel {
        if self.game_over {
            self
        } else {
            let v = self.next_velocity();
            let hit = self.without_hit_bricks();
            if self.ball_pos.y + 1 == 34 {
                BreakoutModel { ball_v: v, game_over: true, ..hit }
            } else {
                BreakoutModel {
                    ball_v: v,
                    ball_pos: Position {
                        x: held(self.ball_pos.x + v.0, 8) as u8,
                        y: held(self.ball_pos.y + v.1, 33) as u8,
                    },
                    ..hit
                }
            }
        }
    }
}

/// Bouncing leaves the ball a velocity of one row and at most one column.
pub proof fn lemma_deflected(v: (i32, i32), sides: Seq<Direction>)
    requires
        -1 <= v.0 <= 1,
        v.1 == 1 || v.1 == -1,
    ensures
        -1 <= deflected(v, sides).0 <= 1,
        deflected(v, sides).1 == 1 || deflected(v, sides).1 == -1,
    decreases sides.len(),
{
    if sides.len() > 0 {
        lemma_deflected(v, sides.drop_last());
    }
}

/// The ball meets at most two bricks at once, and it goes on with a
/// velocity of one row and at most one column.
pub proof fn lemma_hits(state: BreakoutModel)
    requires
        state.wf(),
    ensures
        state.hit_count() <= 2,
        state.hit_sides().len() <= 2,
        -1 <= deflected(state.ball_v, state.hit_sides()).0 <= 1,
        deflected(state.ball_v, state.hit_sides()).1 == 1 || deflected(
            state.ball_v,
            state.hit_sides(),
        ).1 == -1,
        -1 <= state.next_velocity().0 <= 1,
        state.next_velocity().1 == 1 || state.next_velocity().1 == -1,
{
    lemma_deflected(state.ball_v, state.hit_sides());
}

/// Inputs and ticks keep a state one of a game; the score never goes down
/// and grows by the number of bricks removed; and once the game is over
/// nothing changes.
pub proof fn lemma_breakout_steps(state: BreakoutModel, dir: Direction)
    requires
        state.wf(),
    ensures
        state.input(dir).wf(),
        state.tick().wf(),
        state.input(dir).score == state.score,
        state.tick().score >= state.score,
        !state.game_over ==> state.tick().score == state.score + state.hit_count(),
        state.game_over ==> state.tick() == state && state.input(dir) == state,
{
    lemma_hits(state);
}

/// The bricks of the brick game.
#[derive(Clone, Debug)]
pub struct Grid(pub [[u8; HEIGHT]; WIDTH]);

impl View for Grid {
    type V = Bricks;

    open spec fn view(&self) -> Bricks {
        Seq::new(9, |x: int| self.0[x]@)
    }
}

impl Grid {
    /// The view holds the cells of the array.
    pub proof fn lemma_view(&self)
        ensures
            self@.len() == 9,
            forall|x: int| 0 <= x < 9 ==> (#[trigger] self@[x]).len() == 34,
            forall|x: int, y: int| 0 <= x < 9 && 0 <= y < 34 ==> #[trigger] self.0[x][y] == self@[x][y],
    {
    }
}

impl Default for Grid {
    /// The board without bricks.
    fn default() -> (grid: Self)
        ensures
            grid@ == no_bricks(),
    {
        let grid = Grid([[0; HEIGHT]; WIDTH]);
        assert(grid@ =~~= no_bricks());
        grid
    }
}

/// The brick game.
pub struct BreakoutG {
    pub paddle_pos: u32,
    pub ball_pos: Position,
    pub ball_v: (i32, i32),
    pub board: Grid,
    pub time: u32,
    pub score: u32,
    pub game_over: bool,
}

impl View for BreakoutG {
    type V = BreakoutModel;

    open spec fn view(&self) -> BreakoutModel {
        BreakoutModel {
            paddle_pos: self.paddle_pos as nat,
            ball_pos: self.ball_pos,
            ball_v: self.ball_v,
            board: self.board@,
            time: self.time,
            score: self.score as nat,
            game_over: self.game_over,
        }
    }
}

/// The blocks of the rows of the wall for drawing, row by row: green where
/// there is a brick, yellow where there is none.
pub open spec fn spec_board_blocks(bricks: Bricks) -> Seq<Block> {
    Seq::new(
        135,
        |i: int|
            Block {
                position: Position { x: (i % 9) as u8, y: (i / 9) as u8 },
                colour: if bricks[i % 9][i / 9] == BRICK {
                    Colour::Green
                } else {
                    Colour::Yellow
                },
            },
    )
}

/// The blocks of the paddle for drawing, from left to right.
pub open spec fn spec_paddle_blocks(paddle_pos: nat) -> Seq<Block> {
    Seq::new(
        5,
        |i: int|
            Block {
                position: Position { x: (paddle_pos + i) as u8, y: 33 },
                colour: Colour::Green,
            },
    )
}

impl BreakoutG {
    /// A game that has not started: the ball at its start, and no bricks.
    pub fn new() -> (game: BreakoutG)
        ensures
            game@ == (BreakoutModel {
                paddle_pos: 0,
                ball_pos: Position { x: 6, y: 24 },
                ball_v: (0i32, 1i32),
                board: no_bricks(),
                time: 0,
                score: 0,
                game_over: false,
            }),
            game@.wf(),
    {
        BreakoutG {
            paddle_pos: 0,
            ball_pos: Position::new(6, (HEIGHT - 10) as i8),
            ball_v: (0, 1),
            board: Grid::default(),
            time: 0,
            score: 0,
            game_over: false,
        }
    }

    /// Starts the game: puts the ball at its start and builds the wall.
    pub fn init(&mut self)
        ensures
            final(self)@ == old(self)@.restarted(),
    {
        self.ball_pos = Position::new(6, (HEIGHT - 10) as i8);
        self.ball_v = (0, 1);
        self.board = Grid::default();
        proof {
            self.board.lemma_view();
        }
        let mut x: usize = 0;
        while x < WIDTH
            invariant
                x <= WIDTH,
                forall|i: int, j: int|
                    0 <= i < 9 && 0 <= j < 34 ==> #[trigger] self.board.0[i][j] == (if i < x && j
                        < 15 {
                        BRICK
                    } else {
                        0u8
                    }),
                self.paddle_pos == old(self).paddle_pos,
                self.ball_pos == (Position { x: 6, y: 24 }),
                self.ball_v == (0i32, 1i32),
            decreases WIDTH - x,
        {
            let mut y: usize = 0;
            while y < WALL_HEIGHT
                invariant
                    x < WIDTH,
                    y <= WALL_HEIGHT,
                    forall|i: int, j: int|
                        0 <= i < 9 && 0 <= j < 34 ==> #[trigger] self.board.0[i][j] == (if (i < x
                            && j < 15) || (i == x && j < y) {
                            BRICK
                        } else {
                            0u8
                        }),
                    self.paddle_pos == old(self).paddle_pos,
                    self.ball_pos == (Position { x: 6, y: 24 }),
                    self.ball_v == (0i32, 1i32),
                decreases WALL_HEIGHT - y,
            {
                self.board.0[x][y] = BRICK;
                y += 1;
            }
            x += 1;
        }
        self.time = 0;
        self.score = 0;
        self.game_over = false;
        assert(self.board@ =~~= wall());
    }

    /// Whether the state is one of a game.
    pub fn is_valid(&self) -> (valid: bool)
        ensures
            valid == self@.wf(),
    {
        let (vx, vy) = self.ball_v;
        self.ball_pos.x < 9 && self.ball_pos.y < 34 && -1 <= vx && vx <= 1 && (vy == 1 || vy == -1)
            && self.paddle_pos <= 4
    }

    /// Moves the paddle as the input `dir` asks.
    pub fn update(&mut self, dir: Direction)
        requires
            old(self)@.wf(),
        ensures
            final(self)@ == old(self)@.input(dir),
            final(self)@.wf(),
    {
        if self.game_over {
            return ;
        }
        let new_ppos = match dir {
            Direction::LEFT if self.paddle_pos > 0 => self.paddle_pos - 1,
            Direction::RIGHT if self.paddle_pos + PADDLE_WIDTH_U32 < WIDTH_U32 => self.paddle_pos
                + 1,
            _ => self.paddle_pos,
        };
        self.paddle_pos = new_ppos;
    }

    /// Moves the ball by one step.
    pub fn next_tick(&mut self)
        requires
            old(self)@.wf(),
            old(self).score + 2 <= u32::MAX,
        ensures
            final(self)@ == old(self)@.tick(),
            final(self)@.wf(),
    {
        if self.game_over {
            return ;
        }
        proof {
            lemma_hits(self@);
            lemma_breakout_steps(self@, Direction::UP);
        }
        let ghost start = self@;
        // Bounce off the field, if anything was hit
        let dirs = self.hit_field();
        let mut i: usize = 0;
        while i < dirs.len()
            invariant
                i <= dirs@.len(),
                dirs@ == start.hit_sides(),
                self.ball_v == deflected(start.ball_v, dirs@.subrange(0, i as int)),
                -1 <= self.ball_v.0 <= 1,
                -1 <= self.ball_v.1 <= 1,
                self@ == (BreakoutModel { ball_v: self.ball_v, ..start.without_hit_bricks() }),
            decreases dirs@.len() - i,
        {
            assert(dirs@.subrange(0, i + 1).drop_last() =~= dirs@.subrange(0, i as int));
            self.ball_v = match dirs[i] {
                Direction::UP | Direction::DOWN => (self.ball_v.0, -self.ball_v.1),
                Direction::LEFT | Direction::RIGHT => (-self.ball_v.0, self.ball_v.1),
                _ => self.ball_v,
            };
            i += 1;
        }
        assert(dirs@.subrange(0, i as int) =~= dirs@);

        // Bounce off the walls
        if (self.ball_v.0 < 0 && self.ball_pos.x == 0) || (self.ball_v.0 > 0 && self.ball_pos.x + 1
            == WIDTH as u8) {
            self.ball_v = (-self.ball_v.0, self.ball_v.1);
        }
        // Bounce off the top

        if self.ball_v.1 < 0 && self.ball_pos.y == 0 {
            self.ball_v = (self.ball_v.0, -self.ball_v.1);
        }
        // Bounce off the paddle

        let above_padel = self.ball_pos.x as u32 >= self.paddle_pos && self.ball_pos.x as u32
            <= self.paddle_pos + PADDLE_WIDTH_U32;
        if self.ball_v.1 > 0 && self.ball_pos.y + 2 == HEIGHT as u8 && above_padel {
            let offset = (self.ball_pos.x as i8) - (self.paddle_pos + PADDLE_WIDTH_U32 / 2) as i8;
            let (vx, vy) = self.ball_v;
            self.ball_v = if offset == 0 {
                // In the middle it bounces vertically
                (0, -vy)
            } else if vx == 0 {
                // A vertical ball will bounce towards the side where it hit the paddle
                if offset < 0 {
                    (-1, -vy)
                } else {
                    (1, -vy)
                }
            } else if (vx < 0) == (offset < 0) {
                // On the far side of the paddle, the ball bounces off as in real life
                (vx, -vy)
            } else {
                // On the close side of the paddle, the ball bounces back to where it came from
                (-vx, -vy)
            };
        }
        let mut new_x = ((self.ball_pos.x as i32) + self.ball_v.0) as i8;
        let mut new_y = ((self.ball_pos.y as i32) + self.ball_v.1) as i8;
        if new_x >= WIDTH_I8 - 1 {
            new_x = WIDTH_I8 - 1;
        }
        if new_y >= HEIGHT_I8 - 1 {
            new_y = HEIGHT_I8 - 1;
        }
        if new_x < 0 {
            new_x = 0;
        }
        if new_y < 0 {
            new_y = 0;
        }
        // Passed by the paddle to the bottom

        if self.ball_pos.y + 1 == HEIGHT as u8 {
            self.game_over = true;
            return ;
        }
        self.ball_pos = Position::new(new_x, new_y);
    }

    /// The blocks of the paddle, for drawing.
    pub fn paddle_blocks(&self) -> (blocks: Vec<Block>)
        requires
            self@.wf(),
        ensures
            blocks@ == spec_paddle_blocks(self@.paddle_pos),
    {
        let mut blocks: Vec<Block> = Vec::new();
        let mut x: usize = 0;
        while x < PADDLE_WIDTH
            invariant
                x <= PADDLE_WIDTH,
                self@.wf(),
                blocks@ == spec_paddle_blocks(self@.paddle_pos).subrange(0, x as int),
            decreases PADDLE_WIDTH - x,
        {
            blocks.push(
                Block {
                    position: Position::new(self.paddle_pos as i8 + x as i8, (HEIGHT - 1) as i8),
                    colour: Colour::Green,
                },
            );
            assert(blocks@ =~= spec_paddle_blocks(self@.paddle_pos).subrange(0, x + 1));
            x += 1;
        }
        assert(blocks@ =~= spec_paddle_blocks(self@.paddle_pos));
        blocks
    }

    /// The ball, for drawing.
    pub fn ball(&self) -> (ball: Option<Block>)
        ensures
            ball == Some(Block { position: self.ball_pos, colour: Colour::Green }),
    {
        Some(Block { position: self.ball_pos, colour: Colour::Green })
    }

    /// The blocks of the rows of the wall, for drawing.
    pub fn board_blocks(&self) -> (blocks: Vec<Block>)
        ensures
            blocks@ == spec_board_blocks(self.board@),
    {
        let idle = Block { position: Position::new(0, 0), colour: Colour::Yellow };
        let mut blocks: Vec<Block> = Vec::new();
        let mut i: usize = 0;
        while i < WALL_CELLS
            invariant
                i <= WALL_CELLS,
                blocks@.len() == i,
            decreases WALL_CELLS - i,
        {
            blocks.push(idle);
            i += 1;
        }
        let ghost bricks = self.board@;
        let mut x: usize = 0;
        while x < WIDTH
            invariant
                x <= WIDTH,
                blocks@.len() == 135,
                bricks == self.board@,
                forall|i: int|
                    0 <= i < 135 && i % 9 < x ==> #[trigger] blocks@[i] == spec_board_blocks(
                        bricks,
                    )[i],
            decreases WIDTH - x,
        {
            let mut y: usize = 0;
            while y < WALL_HEIGHT
                invariant
                    x < WIDTH,
                    y <= WALL_HEIGHT,
                    blocks@.len() == 135,
                    bricks == self.board@,
                    forall|i: int|
                        0 <= i < 135 && (i % 9 < x || (i % 9 == x && i / 9 < y))
                            ==> #[trigger] blocks@[i] == spec_board_blocks(bricks)[i],
                decreases WALL_HEIGHT - y,
            {
                let colour = if self.board.0[x][y] == BRICK {
                    Colour::Green
                } else {
                    Colour::Yellow
                };
                blocks.set(
                    x + y * WIDTH,
                    Block { position: Position::new(x as i8, y as i8), colour },
                );
                y += 1;
            }
            x += 1;
        }
        assert(blocks@ =~= spec_board_blocks(bricks));
        blocks
    }

    /// Whether the cell at `(x, y)` holds a brick.
    fn has_brick(&self, x: usize, y: usize) -> (found: bool)
        requires
            x < 9,
            y < 34,
        ensures
            found == brick(self@.board, x as int, y as int),
    {
        proof {
            self.board.lemma_view();
        }
        self.board.0[x][y] == BRICK
    }

    /// Removes the brick at `(x, y)` and counts it.
    fn take_brick(&mut self, x: usize, y: usize)
        requires
            x < 9,
            y < 34,
            old(self).score < u32::MAX,
        ensures
            final(self)@ == (BreakoutModel {
                board: old(self)@.board.update(
                    x as int,
                    old(self)@.board[x as int].update(y as int, 0u8),
                ),
                score: old(self)@.score + 1,
                ..old(self)@
            }),
    {
        let ghost start = self@;
        self.board.0[x][y] = 0x00;
        self.score += 1;
        assert(self.board@ =~~= start.board.update(
            x as int,
            start.board[x as int].update(y as int, 0u8),
        ));
    }

    /// Removes and counts the bricks that the ball meets, and returns the
    /// sides on which it meets them.
    pub fn hit_field(&mut self) -> (dirs: Vec<Direction>)
        requires
            old(self)@.wf(),
            old(self).score + 2 <= u32::MAX,
        ensures
            dirs@ == old(self)@.hit_sides(),
            final(self)@ == old(self)@.without_hit_bricks(),
    {
        let ghost start = self@;
        proof {
            lemma_hits(start);
        }
        let mut dirs: Vec<Direction> = Vec::new();
        let x = self.ball_pos.x as usize;
        let y = self.ball_pos.y as usize;
        let (vx, vy) = self.ball_v;

        // Hit something on the left
        if x > 0 && vx < 0 && self.has_brick(x - 1, y) {
            self.take_brick(x - 1, y);
            dirs.push(Direction::LEFT);
        }
        // Hit something on the right

        if x + 1 < WIDTH && vx > 0 && self.has_brick(x + 1, y) {
            self.take_brick(x + 1, y);
            dirs.push(Direction::RIGHT);
        }
        // Hit something on the top

        if y > 0 && vy < 0 && self.has_brick(x, y - 1) {
            self.take_brick(x, y - 1);
            dirs.push(Direction::UP);
        }
        // Hit something on the bottom

        if y + 1 < HEIGHT && vy > 0 && self.has_brick(x, y + 1) {
            self.take_brick(x, y + 1);
            dirs.push(Direction::DOWN);
        }
        // Hit up diagonal
        // Skip if we already hit something else: at a corner the ball only
        // bounces off the bricks that touch it directly, if there are any.

        if dirs.is_empty() && y > 0 && vy < 0 {
            if x + 1 < WIDTH && vx > 0 && self.has_brick(x + 1, y - 1) {
                // Up-right
                self.take_brick(x + 1, y - 1);
                dirs.push(Direction::RIGHT);
                dirs.push(Direction::UP);
            } else if x > 0 && vx < 0 && self.has_brick(x - 1, y - 1) {
                // Up-left
                self.take_brick(x - 1, y - 1);
                dirs.push(Direction::LEFT);
                dirs.push(Direction::UP);
            }
        }
        assert(self.board@ =~~= start.without_hit_bricks().board);
        dirs
    }
}

impl GameT for BreakoutG {
    open spec fn valid(&self) -> bool {
        self@.wf()
    }

    open spec fn ready(&self) -> bool {
        self@.wf() && self.score + 2 <= u32::MAX
    }

    proof fn lemma_ready_is_valid(&self) {
    }

    fn new() -> (game: BreakoutG)
        ensures
            game@.board == no_bricks(),
            game@.score == 0,
            !game.game_over,
    {
        BreakoutG::new()
    }

    fn init(&mut self)
        ensures
            final(self)@ == old(self)@.restarted(),
    {
        BreakoutG::init(self);
    }

    fn is_ready(&self) -> (ready: bool) {
        self.is_valid() && self.score <= u32::MAX - 2
    }

    fn update(&mut self, dir: Direction)
        ensures
            final(self)@ == old(self)@.input(dir),
    {
        BreakoutG::update(self, dir);
    }

    fn next_tick(&mut self)
        ensures
            final(self)@ == old(self)@.tick(),
    {
        BreakoutG::next_tick(self);
    }

    /// The ball, in green.
    open spec fn drawn_ball(&self) -> Option<Block> {
        Some(Block { position: self.ball_pos, colour: Colour::Green })
    }

    /// The five blocks of the paddle.
    open spec fn drawn_paddle_blocks(&self) -> Seq<Block> {
        spec_paddle_blocks(self@.paddle_pos)
    }

    /// The blocks of the rows of the wall.
    open spec fn drawn_board_blocks(&self) -> Seq<Block> {
        spec_board_blocks(self.board@)
    }

    fn paddle_blocks(&self) -> (blocks: Vec<Block>)
        ensures
            blocks@ == self.drawn_paddle_blocks(),
    {
        BreakoutG::paddle_blocks(self)
    }

    fn ball(&self) -> (ball: Option<Block>)
        ensures
            ball == self.drawn_ball(),
    {
        BreakoutG::ball(self)
    }

    fn board_blocks(&self) -> (blocks: Vec<Block>)
        ensures
            blocks@ == self.drawn_board_blocks(),
    {
        BreakoutG::board_blocks(self)
    }
}

} // verus!
