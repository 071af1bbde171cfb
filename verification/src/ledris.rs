//! The falling-block game with a snake.
//!
//! A plain form of the falling-block game: pieces fall and land, but full
//! rows stay where they are and nothing is scored for them. A snake crawls
//! along with every tick; it grows when it reaches the food, which scores,
//! and dies when it runs into the edge of the grid or into itself.

use std::collections::VecDeque;
use vstd::prelude::*;
use crate::blockdrop::{
    collides,
    empty_board,
    is_grid,
    landed,
    lemma_candidate_within_grid,
    lemma_landed,
    lemma_spawn,
    walls_filled,
    Cells,
    ExtendedGrid,
    Piece,
};
use crate::constants::Colour;
use crate::game::{lemma_calc_offset_unit, Block, Direction, Position};
use crate::random::random_in;

verus! {

/// Number of cells of the visible board.
pub const BOARD_CELLS: usize = 306;

/// The state of a snake: its blocks from head to tail, the way it is
/// heading, whether it is alive, and whether it has just eaten.
pub struct SnakeModel {
    pub body: Seq<Block>,
    pub direction: Direction,
    pub alive: bool,
    pub eat: bool,
}

/// Whether one of the blocks lies at `pos`.
pub open spec fn covers(body: Seq<Block>, pos: Position) -> bool {
    exists|i: int| 0 <= i < body.len() && (#[trigger] body[i]).position == pos
}

/// The position one cell from `pos` in the direction `dir`, on the grid
/// with its walls. At the edge of the grid it is `pos` itself.
pub open spec fn ahead(pos: Position, dir: Direction) -> Position {
    match dir {
        Direction::RIGHT => pos.spec_offset_blockdrop(1, 0),
        Direction::UP => pos.spec_offset_blockdrop(0, -1i8),
        Direction::LEFT => pos.spec_offset_blockdrop(-1i8, 0),
        _ => pos.spec_offset_blockdrop(0, 1),
    }
}

impl SnakeModel {
    /// Whether the snake has a head and a heading.
    pub open spec fn wf(self) -> bool {
        self.body.len() >= 1 && self.direction.is_primary()
    }

    /// The snake at the start of a game: three blocks in the middle of the
    /// board, heading up.
    pub open spec fn start() -> SnakeModel {
        SnakeModel {
            body: seq![
                Block { position: Position { x: 4, y: 17 }, colour: Colour::Yellow },
                Block { position: Position { x: 3, y: 17 }, colour: Colour::Green },
                Block { position: Position { x: 2, y: 17 }, colour: Colour::Green },
            ],
            direction: Direction::UP,
            alive: true,
            eat: false,
        }
    }

    /// The snake after it was told to head for `dir`. It does not turn
    /// about.
    pub open spec fn steered(self, dir: Direction) -> SnakeModel {
        if self.direction == dir.spec_opposite() {
            self
        } else {
            SnakeModel { direction: dir, ..self }
        }
    }

    /// Where the head is after the next step.
    pub open spec fn next_head(self) -> Position {
        ahead(self.body[0].position, self.direction)
    }

    /// The snake one step on: the head is at `next_head`, and every other
    /// block is where the block before it was. The colours stay in place.
    pub open spec fn crawled(self) -> SnakeModel {
        SnakeModel {
            body: Seq::new(
                self.body.len(),
                |i: int|
                    Block {
                        position: if i == 0 {
                            self.next_head()
                        } else {
                            self.body[i - 1].position
                        },
                        colour: self.body[i].colour,
                    },
            ),
            ..self
        }
    }

    /// The snake grown by a new yellow head at `pos`; the old head turns
    /// green.
    pub open spec fn grown(self, pos: Position) -> SnakeModel {
        SnakeModel {
            body: seq![Block { position: pos, colour: Colour::Yellow }] + self.body.update(
                0,
                Block { position: self.body[0].position, colour: Colour::Green },
            ),
            ..self
        }
    }

    /// The snake after one step, with the food at `food`. A dead snake
    /// stays as it is. A snake that cannot go on, because it is at the edge
    /// of the grid or because one of its blocks is in the way, dies. A snake
    /// that reaches the food grows and has eaten. Any other snake crawls
    /// on.
    pub open spec fn step(self, food: Position) -> SnakeModel {
        if !self.alive {
            self
        } else if self.next_head() == self.body[0].position || covers(
            self.body,
            self.next_head(),
        ) {
            SnakeModel { alive: false, ..self }
        } else if self.next_head() == food {
            SnakeModel { eat: true, ..self.grown(food) }
        } else {
            self.crawled()
        }
    }
}

/// A step keeps a snake a snake; it never gets shorter, and grows by one
/// block exactly when it eats.
pub proof fn lemma_snake_step(snake: SnakeModel, food: Position)
    requires
        snake.wf(),
    ensures
        snake.step(food).wf(),
        snake.step(food).direction == snake.direction,
        snake.step(food).body.len() == snake.body.len() + (if snake.alive
            && snake.step(food).alive && snake.next_head() == food {
            1int
        } else {
            0int
        }),
        !snake.alive ==> snake.step(food) == snake,
        snake.step(food).alive ==> snake.alive,
{
}

/// A snake.
pub struct Snake {
    pub body: VecDeque<Block>,
    pub direction: Direction,
    pub alive: bool,
    pub eat: bool,
}

impl View for Snake {
    type V = SnakeModel;

    open spec fn view(&self) -> SnakeModel {
        SnakeModel {
            body: self.body@,
            direction: self.direction,
            alive: self.alive,
            eat: self.eat,
        }
    }
}

impl Snake {
    /// The snake at the start of a game.
    pub fn new() -> (snake: Snake)
        ensures
            snake@ == SnakeModel::start(),
            snake@.wf(),
    {
        let head = Position::new_center();
        let mut second = Position::new_center();
        second.offset_blockdrop(-1, 0);
        let mut third = Position::new_center();
        third.offset_blockdrop(-2, 0);
        let mut body: VecDeque<Block> = VecDeque::new();
        body.push_back(Block { position: head, colour: Colour::Yellow });
        body.push_back(Block { position: second, colour: Colour::Green });
        body.push_back(Block { position: third, colour: Colour::Green });
        assert(body@ =~= SnakeModel::start().body);
        Snake { body, direction: Direction::UP, alive: true, eat: false }
    }

    /// Tells the snake to head for `dir`.
    pub fn update(&mut self, dir: Direction)
        requires
            dir.is_primary(),
        ensures
            final(self)@ == old(self)@.steered(dir),
    {
        let mut dir = dir;
        if self.direction == dir.opposite() {
            // Do nothing
        } else {
            self.direction = dir;
        }
    }

    /// Lets the snake take one step, with the food at `food_pos`.
    pub fn perform_next(&mut self, food_pos: &mut Position)
        requires
            old(self)@.wf(),
        ensures
            final(self)@ == old(self)@.step(*old(food_pos)),
            *final(food_pos) == *old(food_pos),
    {
        if self.alive {
            let next_pos = self.next_head_pos();
            if self.check_collide_wall(next_pos) || self.check_collide_body(next_pos) {
                self.alive = false;
            } else if self.check_eat_food(next_pos, *food_pos) {
                self.eat_next(food_pos);
                self.eat = true;
            } else {
                self.move_next();
            }
        }
    }

    /// Where the head is after the next step.
    pub fn next_head_pos(&mut self) -> (pos: Position)
        requires
            old(self)@.wf(),
        ensures
            pos == old(self)@.next_head(),
            *final(self) == *old(self),
    {
        let mut current_head = self.body[0].position;
        match self.direction {
            Direction::RIGHT => current_head.offset_blockdrop(1, 0),
            Direction::UP => current_head.offset_blockdrop(0, -1),
            Direction::LEFT => current_head.offset_blockdrop(-1, 0),
            _ => current_head.offset_blockdrop(0, 1),
        }
        current_head
    }

    /// Whether a step to `next_pos` runs into the edge of the grid: the head
    /// is there already.
    pub fn check_collide_wall(&self, next_pos: Position) -> (hit: bool)
        requires
            self@.wf(),
        ensures
            hit == (self@.body[0].position == next_pos),
    {
        self.body[0].position == next_pos
    }

    /// Whether a block of the snake lies at `pos`.
    pub fn check_collide_body(&self, pos: Position) -> (hit: bool)
        ensures
            hit == covers(self@.body, pos),
    {
        let mut i: usize = 0;
        while i < self.body.len()
            invariant
                i <= self.body@.len(),
                forall|j: int| 0 <= j < i ==> (#[trigger] self.body@[j]).position != pos,
            decreases self.body@.len() - i,
        {
            if self.body[i].position == pos {
                return true;
            }
            i += 1;
        }
        false
    }

    /// Whether a step to `next_pos` reaches the food at `food_pos`.
    pub fn check_eat_food(&self, next_pos: Position, food_pos: Position) -> (eats: bool)
        ensures
            eats == (next_pos == food_pos),
    {
        next_pos == food_pos
    }

    /// Lets the snake crawl one step on.
    pub fn move_next(&mut self)
        requires
            old(self)@.wf(),
        ensures
            final(self)@ == old(self)@.crawled(),
    {
        let ghost start = self@;
        let len = self.body.len();
        let mut i: usize = len - 1;
        while i > 0
            invariant
                i < len,
                len == start.body.len(),
                self.body@.len() == len,
                self.direction == start.direction,
                self.alive == start.alive,
                self.eat == start.eat,
                forall|j: int| 0 <= j <= i ==> #[trigger] self.body@[j] == start.body[j],
                forall|j: int| i < j < len ==> #[trigger] self.body@[j] == start.crawled().body[j],
            decreases i,
        {
            let moved = Block { position: self.body[i - 1].position, colour: self.body[i].colour };
            self.body.remove(i);
            self.body.insert(i, moved);
            i -= 1;
        }
        let head = Block { position: self.next_head_pos(), colour: self.body[0].colour };
        self.body.remove(0);
        self.body.insert(0, head);
        assert(self.body@ =~= start.crawled().body);
    }

    /// Lets the snake grow by a new head at `pos`.
    pub fn eat_next(&mut self, pos: &mut Position)
        requires
            old(self)@.wf(),
        ensures
            final(self)@ == old(self)@.grown(*old(pos)),
            *final(pos) == *old(pos),
    {
        let ghost start = self@;
        let head = Block { position: *pos, colour: Colour::Yellow };
        self.body.push_front(head);
        let second = Block { position: self.body[1].position, colour: Colour::Green };
        self.body.remove(1);
        self.body.insert(1, second);
        assert(self.body@ =~= start.grown(*pos).body);
    }
}

/// The cell of the visible board with the given number, the cells counted
/// row by row.
pub open spec fn cell(i: int) -> Position {
    Position { x: (i % 9) as u8, y: (i / 9) as u8 }
}

/// The number of cells among the first `n` of the visible board on which no
/// block lies.
pub open spec fn free_cells(body: Seq<Block>, n: int) -> nat
    decreases n,
{
    if n <= 0 {
        0
    } else {
        free_cells(body, n - 1) + (if covers(body, cell(n - 1)) {
            0nat
        } else {
            1nat
        })
    }
}

proof fn lemma_free_cells_push(body: Seq<Block>, block: Block, n: int)
    requires
        0 <= n <= 306,
    ensures
        free_cells(body.push(block), n) + 1 >= free_cells(body, n),
        !(exists|i: int| 0 <= i < n && cell(i) == block.position) ==> free_cells(
            body.push(block),
            n,
        ) == free_cells(body, n),
    decreases n,
{
    if n > 0 {
        lemma_free_cells_push(body, block, n - 1);
        let more = body.push(block);
        let c = cell(n - 1);
        assert(covers(more, c) <==> covers(body, c) || c == block.position) by {
            if covers(body, c) {
                let i = choose|i: int| 0 <= i < body.len() && (#[trigger] body[i]).position == c;
                assert(more[i].position == c);
            }
            if c == block.position {
                assert(more[body.len() as int].position == c);
            }
            if covers(more, c) {
                let i = choose|i: int| 0 <= i < more.len() && (#[trigger] more[i]).position == c;
                if i < body.len() {
                    assert(body[i].position == c);
                }
            }
        }
        if exists|i: int| 0 <= i < n - 1 && cell(i) == block.position {
            let i = choose|i: int| 0 <= i < n - 1 && cell(i) == block.position;
            assert(cell(i) != c);
        }
    }
}

/// A snake that is shorter than the board has cells leaves a cell free.
pub proof fn lemma_free_cell_exists(body: Seq<Block>)
    ensures
        free_cells(body, 306) + body.len() >= 306,
    decreases body.len(),
{
    if body.len() == 0 {
        lemma_free_cells_empty(body, 306);
    } else {
        lemma_free_cell_exists(body.drop_last());
        lemma_free_cells_push(body.drop_last(), body.last(), 306);
        assert(body.drop_last().push(body.last()) =~= body);
    }
}

proof fn lemma_free_cells_empty(body: Seq<Block>, n: int)
    requires
        body.len() == 0,
        0 <= n,
    ensures
        free_cells(body, n) == n,
    decreases n,
{
    if n > 0 {
        lemma_free_cells_empty(body, n - 1);
    }
}

/// The state of a game.
pub struct LedrisModel {
    pub snake: SnakeModel,
    pub food: Block,
    pub time: nat,
    pub score: nat,
    pub board: Cells,
    pub piece: Piece,
    pub game_over: bool,
}

impl LedrisModel {
    /// Whether the state is one of a game: the snake has a head, the walls
    /// of the board are in place, and the falling piece is one of the
    /// catalogue that lies in the upper left part of the grid, from where
    /// every move of one cell leaves it on the grid.
    pub open spec fn wf(self) -> bool {
        &&& self.snake.wf()
        &&& is_grid(self.board)
        &&& walls_filled(self.board)
        &&& self.piece.wf()
        &&& self.piece.pos.x <= 10
        &&& self.piece.pos.y <= 32
    }

    /// The state at the start of a game in which `piece` is the first to
    /// fall.
    pub open spec fn start(piece: Piece) -> LedrisModel {
        LedrisModel {
            snake: SnakeModel::start(),
            food: Block { position: Position { x: 4, y: 17 }, colour: Colour::Red },
            time: 0,
            score: 0,
            board: empty_board(),
            piece,
            game_over: false,
        }
    }

    /// The state after the game was set up afresh, with `piece` the first
    /// to fall and the food at `food`. A game that was over stays over.
    pub open spec fn restarted(self, piece: Piece, food: Position) -> LedrisModel {
        LedrisModel {
            snake: SnakeModel::start(),
            food: Block { position: food, colour: self.food.colour },
            time: 0,
            score: 0,
            board: empty_board(),
            piece,
            game_over: self.game_over,
        }
    }

    /// The state after the falling piece was merged into the board and
    /// `spawn` has appeared in its place.
    pub open spec fn land(self, spawn: Piece) -> LedrisModel {
        LedrisModel { board: landed(self.board, self.piece), piece: spawn, ..self }
    }

    /// Whether the input `dir` makes the falling piece land.
    pub open spec fn lands_on(self, dir: Direction) -> bool {
        !self.game_over && dir == Direction::DOWN && collides(
            self.board,
            self.piece.candidate(dir),
        )
    }

    /// The state after the input `dir`, where `spawn` is the piece that
    /// appears if the falling piece lands.
    pub open spec fn input(self, dir: Direction, spawn: Piece) -> LedrisModel {
        if self.game_over {
            self
        } else if !collides(self.board, self.piece.candidate(dir)) {
            LedrisModel { piece: self.piece.candidate(dir), ..self }
        } else if dir == Direction::DOWN {
            self.land(spawn)
        } else {
            self
        }
    }

    /// The state after the falling piece has moved down by one row, or has
    /// landed if it has no room there; then the game is over if `spawn` has
    /// no room.
    pub open spec fn fall(self, spawn: Piece) -> LedrisModel {
        if collides(self.board, self.piece.moved(0, 1)) {
            let next = self.land(spawn);
            LedrisModel { game_over: self.game_over || collides(next.board, spawn), ..next }
        } else {
            LedrisModel { piece: self.piece.moved(0, 1), ..self }
        }
    }

    /// Whether the snake eats on its next step.
    pub open spec fn snake_eats(self) -> bool {
        self.snake.alive && self.snake.step(self.food.position).eat
    }

    /// The state after the snake has taken a step, if it is alive: the
    /// clock goes on by one, and if the snake has eaten, the score grows by
    /// one and the food is put at `food`.
    pub open spec fn crawl(self, food: Position) -> LedrisModel {
        if !self.snake.alive {
            self
        } else {
            let snake = self.snake.step(self.food.position);
            if snake.eat {
                LedrisModel {
                    snake: SnakeModel { eat: false, ..snake },
                    time: self.time + 1,
                    score: self.score + 1,
                    food: Block { position: food, colour: self.food.colour },
                    ..self
                }
            } else {
                LedrisModel { snake, time: self.time + 1, ..self }
            }
        }
    }

    /// The state after one tick: the piece falls, and then the snake takes
    /// a step. Nothing happens once the game is over.
    pub open spec fn tick(self, spawn: Piece, food: Position) -> LedrisModel {
        if self.game_over {
            self
        } else {
            self.fall(spawn).crawl(food)
        }
    }
}

/// Inputs and ticks keep a state one of a game; the score never goes down;
/// and once the game is over nothing changes.
pub proof fn lemma_ledris_steps(state: LedrisModel, dir: Direction, spawn: Piece, food: Position)
    requires
        state.wf(),
        spawn.is_spawn(),
    ensures
        state.input(dir, spawn).wf(),
        state.tick(spawn, food).wf(),
        state.input(dir, spawn).score == state.score,
        state.tick(spawn, food).score >= state.score,
        state.game_over ==> state.input(dir, spawn) == state && state.tick(spawn, food) == state,
        state.piece.candidate(dir).wf(),
        state.piece.candidate(dir).within_grid(),
        state.piece.within_grid(),
{
    lemma_spawn(spawn);
    lemma_landed(state.board, state.piece);
    lemma_piece_fits(state.piece, dir);
    lemma_piece_fits(state.piece, Direction::DOWN);
    if !collides(state.board, state.piece.candidate(dir)) {
        lemma_candidate_within_grid(state.board, state.piece.candidate(dir), dir);
    }
    if !collides(state.board, state.piece.candidate(Direction::DOWN)) {
        lemma_candidate_within_grid(state.board, state.piece.candidate(Direction::DOWN), dir);
    }
    lemma_snake_step(state.fall(spawn).snake, state.fall(spawn).food.position);
}

/// A piece in the upper left part of the grid lies on the grid, and so does
/// each of the pieces that an input can ask for in its place.
pub proof fn lemma_piece_fits(piece: Piece, dir: Direction)
    requires
        piece.wf(),
        piece.pos.x <= 10,
        piece.pos.y <= 32,
    ensures
        piece.within_grid(),
        piece.candidate(dir).wf(),
        piece.candidate(dir).within_grid(),
{
    lemma_calc_offset_unit(piece.pos.x, 15);
    lemma_calc_offset_unit(piece.pos.y, 37);
}

/// The falling-block game with a snake.
pub struct Game {
    pub snake: Snake,
    pub food: Block,
    pub time: u32,
    pub score: u32,
    pub board: ExtendedGrid,
    pub piece: Piece,
    pub game_over: bool,
}

impl View for Game {
    type V = LedrisModel;

    open spec fn view(&self) -> LedrisModel {
        LedrisModel {
            snake: self.snake@,
            food: self.food,
            time: self.time as nat,
            score: self.score as nat,
            board: self.board@,
            piece: self.piece,
            game_over: self.game_over,
        }
    }
}

impl Game {
    /// A new game, with a piece drawn at random.
    pub fn new() -> (game: Game)
        ensures
            game@ == LedrisModel::start(game.piece),
            game.piece.is_spawn(),
            game@.wf(),
    {
        let piece = Piece::random();
        proof {
            lemma_spawn(piece);
        }
        Game {
            snake: Snake::new(),
            food: Block { position: Position::new_center(), colour: Colour::Red },
            time: 0,
            score: 0,
            board: ExtendedGrid::default(),
            piece,
            game_over: false,
        }
    }

    /// Sets the game up afresh, with a piece and a place for the food drawn
    /// at random. A game that was over stays over.
    pub fn init(&mut self)
        ensures
            final(self)@ == old(self)@.restarted(final(self).piece, final(self).food.position),
            final(self).piece.is_spawn(),
            final(self).food.position.x < 9,
            final(self).food.position.y < 34,
            !covers(SnakeModel::start().body, final(self).food.position),
            final(self)@.wf(),
    {
        self.snake = Snake::new();
        proof {
            lemma_free_cell_exists(self.snake@.body);
        }
        self.food.position = self.get_food_pos();
        self.time = 0;
        self.score = 0;
        self.board = ExtendedGrid::default();
        self.piece = Piece::random();
        proof {
            lemma_spawn(self.piece);
        }
    }

    /// Whether the state is one of a game.
    pub fn is_valid(&self) -> (valid: bool)
        ensures
            valid == self@.wf(),
    {
        proof {
            self.board.lemma_view();
        }
        if self.snake.body.len() == 0 {
            return false;
        }
        match self.snake.direction {
            Direction::UP | Direction::DOWN | Direction::LEFT | Direction::RIGHT => {},
            _ => {
                return false;
            },
        }
        if !self.board.walls_in_place() {
            return false;
        }
        match self.piece.rotation {
            Direction::UP | Direction::DOWN | Direction::LEFT | Direction::RIGHT => {},
            _ => {
                return false;
            },
        }
        self.piece.shape < 2 && self.piece.pos.x <= 10 && self.piece.pos.y <= 32
    }

    /// Moves the falling piece as the input `dir` asks, if it has room
    /// there. Returns whether the piece has landed instead.
    fn try_move(&mut self, dir: Direction) -> (landed: bool)
        requires
            old(self)@.wf(),
        ensures
            landed == old(self)@.lands_on(dir),
            landed ==> *final(self) == *old(self),
            !landed ==> final(self)@ == old(self)@.input(dir, old(self).piece),
            final(self)@.wf(),
    {
        if self.game_over {
            return false;
        }
        proof {
            lemma_piece_fits(self.piece, dir);
        }
        let mut next_piece = self.piece;
        match dir {
            Direction::UP => next_piece.rotation = next_piece.rotation.next_cw(),
            Direction::DOWN => next_piece.pos.offset_blockdrop(0, 1),
            Direction::LEFT => next_piece.pos.offset_blockdrop(-1, 0),
            Direction::RIGHT => next_piece.pos.offset_blockdrop(1, 0),
            _ => (),
        }
        assert(next_piece == self.piece.candidate(dir));
        if self.check_collision(&next_piece) {
            // Don't collide on rotation or sideways move
            dir == Direction::DOWN
        } else {
            proof {
                lemma_candidate_within_grid(self.board@, next_piece, dir);
            }
            self.piece = next_piece;
            false
        }
    }

    /// Handles the input `dir`, with `spawn` as the piece that appears if
    /// the falling piece lands.
    pub fn update_with(&mut self, dir: Direction, spawn: Piece)
        requires
            old(self)@.wf(),
            spawn.is_spawn(),
        ensures
            final(self)@ == old(self)@.input(dir, spawn),
            final(self)@.wf(),
    {
        if self.try_move(dir) {
            proof {
                lemma_piece_fits(self.piece, dir);
                lemma_landed(self.board@, self.piece);
            }
            self.save();
            self.piece = spawn;
        }
    }

    /// Handles the input `dir`. If the falling piece lands, the piece that
    /// appears in its place is drawn at random.
    pub fn update(&mut self, dir: Direction)
        requires
            old(self)@.wf(),
        ensures
            final(self)@ == old(self)@.input(dir, final(self).piece),
            old(self)@.lands_on(dir) ==> final(self).piece.is_spawn(),
            final(self)@.wf(),
    {
        if self.try_move(dir) {
            proof {
                lemma_piece_fits(self.piece, dir);
                lemma_landed(self.board@, self.piece);
            }
            self.save();
            self.piece = Piece::random();
        }
    }

    /// Merges the falling piece into the board.
    pub fn save(&mut self)
        requires
            old(self).piece.wf(),
            old(self).piece.within_grid(),
        ensures
            final(self)@ == (LedrisModel {
                board: landed(old(self)@.board, old(self).piece),
                ..old(self)@
            }),
    {
        self.board.lock(&self.piece);
    }

    /// Whether `piece` has no room on the board.
    pub fn check_collision(&self, piece: &Piece) -> (hit: bool)
        requires
            piece.wf(),
            piece.within_grid(),
        ensures
            hit == collides(self.board@, *piece),
    {
        self.board.collides_with(piece)
    }

    /// Lets the falling piece fall by one row, if it has room there.
    /// Returns whether it has landed instead.
    fn try_fall(&mut self) -> (landed: bool)
        requires
            old(self)@.wf(),
            !old(self).game_over,
        ensures
            landed == collides(old(self)@.board, old(self).piece.moved(0, 1)),
            landed ==> *final(self) == *old(self),
            !landed ==> final(self)@ == old(self)@.fall(old(self).piece),
            final(self)@.wf(),
    {
        proof {
            lemma_piece_fits(self.piece, Direction::DOWN);
        }
        let mut next_piece = self.piece;
        next_piece.pos.offset_blockdrop(0, 1);
        if self.check_collision(&next_piece) {
            true
        } else {
            proof {
                lemma_candidate_within_grid(self.board@, next_piece, Direction::DOWN);
            }
            self.piece = next_piece;
            false
        }
    }

    /// Lands the falling piece and puts `spawn` in its place; the game is
    /// over if `spawn` has no room.
    fn land(&mut self, spawn: Piece)
        requires
            old(self)@.wf(),
            !old(self).game_over,
            collides(old(self)@.board, old(self).piece.moved(0, 1)),
            spawn.is_spawn(),
        ensures
            final(self)@ == old(self)@.fall(spawn),
            final(self)@.wf(),
    {
        proof {
            lemma_piece_fits(self.piece, Direction::DOWN);
            lemma_landed(self.board@, self.piece);
            lemma_spawn(spawn);
        }
        self.save();
        self.piece = spawn;
        if self.check_collision(&self.piece) {
            // Game Over
            self.game_over = true;
        }
    }

    /// Lets the snake take a step, if it is alive, and the clock go on.
    /// Returns whether the snake has eaten; the score is counted, and what
    /// is left to do is to put the food at a new place.
    fn crawl(&mut self) -> (eaten: bool)
        requires
            old(self)@.wf(),
            old(self).time < u32::MAX,
            old(self).score < u32::MAX,
        ensures
            eaten == old(self)@.snake_eats(),
            final(self)@ == old(self)@.crawl(old(self).food.position),
            final(self)@.wf(),
    {
        proof {
            lemma_snake_step(self.snake@, self.food.position);
        }
        if self.snake.alive {
            let mut food_pos = self.food.position;
            self.snake.perform_next(&mut food_pos);
            self.time += 1;
            if self.snake.eat {
                self.score += 1;
                self.snake.eat = false;
                return true;
            }
        }
        false
    }

    /// Lets the piece fall and the snake take a step, with `spawn` as the
    /// piece that appears if the falling piece lands, and `food` as the new
    /// place of the food if the snake eats.
    pub fn next_tick_with(&mut self, spawn: Piece, food: Position)
        requires
            old(self)@.wf(),
            spawn.is_spawn(),
            old(self).time < u32::MAX,
            old(self).score < u32::MAX,
        ensures
            final(self)@ == old(self)@.tick(spawn, food),
            final(self)@.wf(),
    {
        if self.game_over {
            return ;
        }
        if self.try_fall() {
            self.land(spawn);
        }
        if self.crawl() {
            self.food.position = food;
        }
    }

    /// Lets the piece fall and the snake take a step. If the falling piece
    /// lands, the piece that appears in its place is drawn at random; if the
    /// snake eats, the new place of the food is drawn at random among the
    /// cells of the visible board on which the snake does not lie.
    pub fn next_tick(&mut self)
        requires
            old(self)@.wf(),
            old(self).time < u32::MAX,
            old(self).score < u32::MAX,
            old(self).snake.body@.len() < 305,
        ensures
            final(self)@ == old(self)@.tick(final(self).piece, final(self).food.position),
            !old(self).game_over && collides(old(self)@.board, old(self).piece.moved(0, 1))
                ==> final(self).piece.is_spawn(),
            !old(self).game_over && old(self)@.fall(final(self).piece).snake_eats() ==> {
                &&& final(self).food.position.x < 9
                &&& final(self).food.position.y < 34
                &&& !covers(final(self)@.snake.body, final(self).food.position)
            },
            final(self)@.wf(),
    {
        if self.game_over {
            return ;
        }
        if self.try_fall() {
            let spawn = Piece::random();
            self.land(spawn);
        }
        proof {
            lemma_snake_step(self.snake@, self.food.position);
        }
        if self.crawl() {
            proof {
                lemma_free_cell_exists(self.snake@.body);
            }
            self.food.position = self.get_food_pos();
        }
    }

    /// The direction with the given number: right, up, left, down; for any
    /// other number, the way the snake is heading.
    pub fn get_direction_from_index(&self, index: usize) -> (dir: Direction)
        ensures
            dir == (if index == 0 {
                Direction::RIGHT
            } else if index == 1 {
                Direction::UP
            } else if index == 2 {
                Direction::LEFT
            } else if index == 3 {
                Direction::DOWN
            } else {
                self.snake.direction
            }),
    {
        match index {
            0 => Direction::RIGHT,
            1 => Direction::UP,
            2 => Direction::LEFT,
            3 => Direction::DOWN,
            _ => self.snake.direction,
        }
    }

    /// The number of cells of the visible board on which the snake does not
    /// lie.
    pub fn count_free_cells(&self) -> (n: usize)
        ensures
            n == free_cells(self.snake@.body, 306),
    {
        let mut n: usize = 0;
        let mut i: usize = 0;
        while i < BOARD_CELLS
            invariant
                i <= BOARD_CELLS,
                n == free_cells(self.snake@.body, i as int),
                n <= i,
            decreases BOARD_CELLS - i,
        {
            let pos = Position { x: (i % 9) as u8, y: (i / 9) as u8 };
            if !self.snake.check_collide_body(pos) {
                n += 1;
            }
            i += 1;
        }
        n
    }

    /// The free cell of the visible board that has `k` free cells before
    /// it, the cells counted row by row.
    pub fn food_pos_at(&self, k: usize) -> (pos: Position)
        requires
            k < free_cells(self.snake@.body, 306),
        ensures
            pos.x < 9,
            pos.y < 34,
            !covers(self.snake@.body, pos),
            free_cells(self.snake@.body, pos.x + 9 * pos.y) == k,
    {
        let mut seen: usize = 0;
        let mut i: usize = 0;
        while i < BOARD_CELLS
            invariant
                i <= BOARD_CELLS,
                seen == free_cells(self.snake@.body, i as int),
                seen <= k,
                k < free_cells(self.snake@.body, 306),
            decreases BOARD_CELLS - i,
        {
            let pos = Position { x: (i % 9) as u8, y: (i / 9) as u8 };
            if !self.snake.check_collide_body(pos) {
                if seen == k {
                    return pos;
                }
                seen += 1;
            }
            i += 1;
        }
        // Every free cell has been passed by, so there are at most `k`.
        assert(false);
        Position { x: 0, y: 0 }
    }

    /// A place for the food, drawn at random among the cells of the visible
    /// board on which the snake does not lie.
    pub fn get_food_pos(&mut self) -> (pos: Position)
        requires
            free_cells(old(self).snake@.body, 306) > 0,
        ensures
            *final(self) == *old(self),
            pos.x < 9,
            pos.y < 34,
            !covers(old(self).snake@.body, pos),
    {
        let free = self.count_free_cells();
        let k = random_in(0, free);
        self.food_pos_at(k)
    }

    /// The number of steps between the head of the snake and the food, rows
    /// and columns added up.
    pub fn get_food_dist(&self) -> (dist: i64)
        requires
            self@.snake.wf(),
        ensures
            dist == (if self.snake@.body[0].position.x >= self.food.position.x {
                self.snake@.body[0].position.x - self.food.position.x
            } else {
                self.food.position.x - self.snake@.body[0].position.x
            }) + (if self.snake@.body[0].position.y >= self.food.position.y {
                self.snake@.body[0].position.y - self.food.position.y
            } else {
                self.food.position.y - self.snake@.body[0].position.y
            }),
    {
        let head = self.snake.body[0].position;
        let dx = head.x as i64 - self.food.position.x as i64;
        let dy = head.y as i64 - self.food.position.y as i64;
        let dist_x = if dx < 0 {
            -dx
        } else {
            dx
        };
        let dist_y = if dy < 0 {
            -dy
        } else {
            dy
        };
        dist_x + dist_y
    }

    /// Whether a step of the snake to `pos` kills it: the head is there
    /// already, or another of its blocks.
    pub fn get_pos_dead(&self, pos: Position) -> (dead: bool)
        requires
            self@.snake.wf(),
        ensures
            dead == (self.snake@.body[0].position == pos || covers(self.snake@.body, pos)),
    {
        self.snake.check_collide_wall(pos) || self.snake.check_collide_body(pos)
    }
}

} // verus!
