//! The falling-block game.
//!
//! The board is a grid of cells with a wall of filled cells on the left, on
//! the right and below the visible area, so that a piece that would leave the
//! visible area runs into a filled cell like any other. A piece falls one row
//! per tick; when it cannot fall it is merged into the board, full rows are
//! removed, and a new piece appears at the top. The game is over when the new
//! piece has no room.
//!
//! Contracts are stated over [`Cells`], the board as a sequence of columns,
//! and over [`GameModel`], the state of a game.

use vstd::prelude::*;
use crate::constants::Colour;
use crate::game::{lemma_calc_offset_unit, Block, Direction, GameT, Position};
use crate::random::random_in;

verus! {

/// Width of the wall on the left, on the right and below the visible area.
pub const OFF: usize = 3;

pub const OFF_U8: u8 = 3;

pub const OFF_I8: i8 = 3;

/// Width of the visible area.
pub const WIDTH: usize = 9;

/// Height of the visible area.
pub const HEIGHT: usize = 34;

/// Width of the grid, walls included.
pub const GRID_WIDTH: usize = 15;

/// Height of the grid, floor included.
pub const GRID_HEIGHT: usize = 37;

/// Number of cells of the grid.
pub const GRID_CELLS: usize = 555;

/// The value of a cell that holds a block or belongs to a wall.
pub const FILLED: u8 = 0xFF;

/// The value of a free cell.
pub const EMPTY: u8 = 0x00;

/// The cells of a board, column by column: `cells[x][y]` is the cell in
/// column `x`, counted from the left, and row `y`, counted from the top.
pub type Cells = Seq<Seq<u8>>;

/// Whether `(x, y)` is a cell of the grid.
pub open spec fn in_grid(x: int, y: int) -> bool {
    0 <= x < 15 && 0 <= y < 37
}

/// Whether `(x, y)` is a cell of the visible area.
pub open spec fn in_play(x: int, y: int) -> bool {
    3 <= x < 12 && 0 <= y < 34
}

/// Whether `cells` has the dimensions of the grid.
pub open spec fn is_grid(cells: Cells) -> bool {
    &&& cells.len() == 15
    &&& forall|x: int| 0 <= x < 15 ==> (#[trigger] cells[x]).len() == 37
}

/// Whether the cell at `(x, y)` stops a piece: it holds a block or belongs
/// to a wall.
pub open spec fn occupied(cells: Cells, x: int, y: int) -> bool {
    cells[x][y] == FILLED
}

/// Whether every cell outside the visible area is filled.
pub open spec fn walls_filled(cells: Cells) -> bool {
    forall|x: int, y: int| in_grid(x, y) && !in_play(x, y) ==> #[trigger] cells[x][y] == FILLED
}

/// Whether two boards agree outside the visible area.
pub open spec fn same_walls(a: Cells, b: Cells) -> bool {
    forall|x: int, y: int| in_grid(x, y) && !in_play(x, y) ==> #[trigger] a[x][y] == b[x][y]
}

/// The board at the start of a game: walls filled, visible area free.
pub open spec fn empty_board() -> Cells {
    Seq::new(
        15,
        |x: int|
            Seq::new(
                37,
                |y: int|
                    if in_play(x, y) {
                        EMPTY
                    } else {
                        FILLED
                    },
            ),
    )
}

/// Whether every visible cell of row `y` is filled.
pub open spec fn row_full(cells: Cells, y: int) -> bool {
    forall|x: int| 3 <= x < 12 ==> #[trigger] cells[x][y] == FILLED
}

/// Whether every visible cell of row `y` is free.
pub open spec fn row_empty(cells: Cells, y: int) -> bool {
    forall|x: int| 3 <= x < 12 ==> #[trigger] cells[x][y] == EMPTY
}

/// Whether the visible part of row `ya` of `a` equals that of row `yb` of `b`.
pub open spec fn same_row(a: Cells, ya: int, b: Cells, yb: int) -> bool {
    forall|x: int|
        #![trigger a[x][ya]]
        #![trigger b[x][yb]]
        3 <= x < 12 ==> a[x][ya] == b[x][yb]
}

/// Rows with the same cells are full together.
pub proof fn lemma_same_row_full(a: Cells, ya: int, b: Cells, yb: int)
    requires
        same_row(a, ya, b, yb),
    ensures
        row_full(a, ya) == row_full(b, yb),
{
}

/// The number of full rows among the visible rows from `y` downwards.
pub open spec fn full_rows_from(cells: Cells, y: int) -> nat
    decreases 34 - y,
{
    if y >= 34 {
        0
    } else {
        (if row_full(cells, y) {
            1nat
        } else {
            0nat
        }) + full_rows_from(cells, y + 1)
    }
}

/// The number of full rows of the visible area.
pub open spec fn full_rows(cells: Cells) -> nat {
    full_rows_from(cells, 0)
}

/// The row in which row `y` comes to rest when the full rows are removed:
/// it sinks by the number of full rows below it.
pub open spec fn landing_row(cells: Cells, y: int) -> int {
    y + full_rows_from(cells, y + 1)
}

/// The row that comes to rest in row `y` when the full rows are removed.
pub open spec fn source_row(cells: Cells, y: int) -> int {
    choose|r: int| 0 <= r < 34 && !row_full(cells, r) && landing_row(cells, r) == y
}

/// The board without the visible row `row`: the rows above it have sunk by
/// one, and the top row is free. The walls are as before.
pub open spec fn without_row(cells: Cells, row: int) -> Cells {
    Seq::new(
        15,
        |x: int|
            Seq::new(
                37,
                |y: int|
                    if 3 <= x < 12 && 0 <= y <= row {
                        if y == 0 {
                            EMPTY
                        } else {
                            cells[x][y - 1]
                        }
                    } else {
                        cells[x][y]
                    },
            ),
    )
}

/// The board without its full rows: every other row has sunk by the number
/// of full rows below it, and as many free rows have come in at the top. The
/// walls are as before.
pub open spec fn compacted(cells: Cells) -> Cells {
    Seq::new(
        15,
        |x: int|
            Seq::new(
                37,
                |y: int|
                    if !in_play(x, y) {
                        cells[x][y]
                    } else if y < full_rows(cells) {
                        EMPTY
                    } else {
                        cells[x][source_row(cells, y)]
                    },
            ),
    )
}

/// There are no more full rows from `y` downwards than rows.
pub proof fn lemma_full_rows_bound(cells: Cells, y: int)
    requires
        0 <= y <= 34,
    ensures
        full_rows_from(cells, y) <= 34 - y,
    decreases 34 - y,
{
    if y < 34 {
        lemma_full_rows_bound(cells, y + 1);
    }
}

/// Rows keep their order when the full rows are removed: a row comes to
/// rest above every row below it that stays.
pub proof fn lemma_landing_order(cells: Cells, upper: int, lower: int)
    requires
        -1 <= upper < lower < 34,
    ensures
        landing_row(cells, upper) <= landing_row(cells, lower),
        !row_full(cells, lower) ==> landing_row(cells, upper) < landing_row(cells, lower),
    decreases lower - upper,
{
    if upper + 1 < lower {
        lemma_landing_order(cells, upper, lower - 1);
    }
}

/// A row that stays comes to rest below the free rows that come in at the
/// top, and inside the visible area.
pub proof fn lemma_landing_range(cells: Cells, y: int)
    requires
        0 <= y < 34,
        !row_full(cells, y),
    ensures
        full_rows(cells) <= landing_row(cells, y) < 34,
{
    lemma_landing_order(cells, -1, y);
    lemma_full_rows_bound(cells, y + 1);
}

proof fn lemma_landing_onto_from(cells: Cells, above: int, y: int)
    requires
        -1 <= above < 34,
        landing_row(cells, above) < y < 34,
    ensures
        exists|r: int| above < r < 34 && !row_full(cells, r) && landing_row(cells, r) == y,
    decreases 34 - above,
{
    let next = above + 1;
    if next == 34 {
        assert(false);
    } else if !row_full(cells, next) && landing_row(cells, next) == y {
    } else {
        lemma_landing_onto_from(cells, next, y);
    }
}

/// Below the free rows that come in at the top, every row is the resting
/// place of exactly one row that stays.
pub proof fn lemma_source_row(cells: Cells, y: int)
    requires
        full_rows(cells) <= y < 34,
    ensures
        0 <= source_row(cells, y) < 34,
        !row_full(cells, source_row(cells, y)),
        landing_row(cells, source_row(cells, y)) == y,
        forall|r: int|
            0 <= r < 34 && !row_full(cells, r) && #[trigger] landing_row(cells, r) == y ==> r
                == source_row(cells, y),
{
    lemma_landing_onto_from(cells, -1, y);
    let s = source_row(cells, y);
    assert forall|r: int|
        0 <= r < 34 && !row_full(cells, r) && #[trigger] landing_row(cells, r) == y implies r
        == s by {
        if r < s {
            lemma_landing_order(cells, r, s);
        } else if s < r {
            lemma_landing_order(cells, s, r);
        }
    }
}

/// What removing the full rows does to a board: every row that stays sinks
/// by the number of full rows that were below it; as many free rows as there
/// were full rows come in at the top; no full row is left; and the walls are
/// untouched.
pub proof fn lemma_compacted(cells: Cells)
    requires
        is_grid(cells),
    ensures
        is_grid(compacted(cells)),
        same_walls(compacted(cells), cells),
        forall|y: int|
            0 <= y < 34 && !row_full(cells, y) ==> same_row(
                compacted(cells),
                #[trigger] landing_row(cells, y),
                cells,
                y,
            ),
        forall|y: int| 0 <= y < full_rows(cells) ==> #[trigger] row_empty(compacted(cells), y),
        forall|y: int| 0 <= y < 34 ==> !#[trigger] row_full(compacted(cells), y),
        full_rows(compacted(cells)) == 0,
{
    let after = compacted(cells);
    lemma_full_rows_bound(cells, 0);
    assert forall|y: int| 0 <= y < 34 && !row_full(cells, y) implies same_row(
        after,
        #[trigger] landing_row(cells, y),
        cells,
        y,
    ) by {
        lemma_landing_range(cells, y);
        lemma_source_row(cells, landing_row(cells, y));
    }
    assert forall|y: int| 0 <= y < 34 implies !#[trigger] row_full(after, y) by {
        if y < full_rows(cells) {
            assert(after[3][y] == EMPTY);
        } else {
            lemma_source_row(cells, y);
            let s = source_row(cells, y);
            let x = choose|x: int| 3 <= x < 12 && cells[x][s] != FILLED;
            assert(after[x][y] == cells[x][s]);
        }
    }
    lemma_no_full_rows(after, 0);
}

/// Where the removal of the full rows of `before` stands when the rows from
/// `row` downwards have been looked at and `removed` of them were full:
/// `removed` free rows have come in at the top, the rows above `row` lie
/// below them as they were, every row from `row` downwards that stays has
/// come to rest, and the walls are untouched.
spec fn compacting(before: Cells, now: Cells, row: int, removed: int) -> bool {
    &&& is_grid(now)
    &&& same_walls(now, before)
    &&& forall|x: int, y: int| 3 <= x < 12 && 0 <= y < removed ==> #[trigger] now[x][y] == EMPTY
    &&& forall|x: int, y: int|
        3 <= x < 12 && removed <= y < row + removed ==> #[trigger] now[x][y] == before[x][y
            - removed]
    &&& forall|y: int|
        row <= y < 34 && !row_full(before, y) ==> same_row(
            now,
            #[trigger] landing_row(before, y),
            before,
            y,
        )
}

proof fn lemma_compacting_start(before: Cells)
    requires
        is_grid(before),
    ensures
        compacting(before, before, 34, 0),
{
}

/// The next row to look at is found where the rows removed so far have let
/// it sink to.
proof fn lemma_compacting_next(before: Cells, now: Cells, row: int, removed: int)
    requires
        0 <= row < 34,
        removed == full_rows_from(before, row + 1),
        compacting(before, now, row + 1, removed),
    ensures
        row + removed < 34,
        row + removed == landing_row(before, row),
        same_row(now, row + removed, before, row),
        row_full(now, row + removed) == row_full(before, row),
        full_rows_from(before, row) == removed + (if row_full(before, row) {
            1int
        } else {
            0int
        }),
{
    lemma_full_rows_bound(before, row + 1);
    assert(same_row(now, row + removed, before, row));
    lemma_same_row_full(now, row + removed, before, row);
}

proof fn lemma_compacting_keep(before: Cells, now: Cells, row: int, removed: int)
    requires
        0 <= row < 34,
        removed == full_rows_from(before, row + 1),
        compacting(before, now, row + 1, removed),
        !row_full(before, row),
    ensures
        compacting(before, now, row, removed),
{
    lemma_compacting_next(before, now, row, removed);
}

proof fn lemma_compacting_remove(before: Cells, now: Cells, row: int, removed: int)
    requires
        0 <= row < 34,
        removed == full_rows_from(before, row + 1),
        compacting(before, now, row + 1, removed),
        row_full(before, row),
    ensures
        compacting(before, without_row(now, row + removed), row, removed + 1),
{
    lemma_compacting_next(before, now, row, removed);
    let at = row + removed;
    let after = without_row(now, at);
    assert forall|y: int| row <= y < 34 && !row_full(before, y) implies same_row(
        after,
        #[trigger] landing_row(before, y),
        before,
        y,
    ) by {
        lemma_landing_order(before, row, y);
        lemma_landing_range(before, y);
        assert(same_row(now, landing_row(before, y), before, y));
    }
}

proof fn lemma_compacting_done(before: Cells, now: Cells)
    requires
        is_grid(before),
        compacting(before, now, 0, full_rows(before) as int),
    ensures
        now == compacted(before),
{
    lemma_full_rows_bound(before, 0);
    assert forall|x: int, y: int| in_grid(x, y) implies #[trigger] now[x][y] == compacted(
        before,
    )[x][y] by {
        if in_play(x, y) && y >= full_rows(before) {
            lemma_source_row(before, y);
            let source = source_row(before, y);
            assert(same_row(now, landing_row(before, source), before, source));
        }
    }
    assert(now =~~= compacted(before));
}

/// A board without a full row from `y` downwards has a count of zero there.
pub proof fn lemma_no_full_rows(cells: Cells, y: int)
    requires
        0 <= y <= 34,
        forall|r: int| y <= r < 34 ==> !#[trigger] row_full(cells, r),
    ensures
        full_rows_from(cells, y) == 0,
    decreases 34 - y,
{
    if y < 34 {
        lemma_no_full_rows(cells, y + 1);
    }
}

/// The blocks of a board for drawing: one for each cell of the grid, row by
/// row. A cell of a visible row gives a block at its place, green if the
/// cell is filled and lies right of the left wall, yellow otherwise. A cell
/// of the floor gives a yellow block at the origin.
pub open spec fn board_blocks(cells: Cells) -> Seq<Block> {
    Seq::new(
        555,
        |i: int|
            if i / 15 < 34 {
                Block {
                    position: Position { x: (i % 15) as u8, y: (i / 15) as u8 },
                    colour: if cells[i % 15][i / 15] == FILLED && i % 15 > 2 {
                        Colour::Green
                    } else {
                        Colour::Yellow
                    },
                }
            } else {
                Block { position: Position { x: 0, y: 0 }, colour: Colour::Yellow }
            },
    )
}

/// The board of the falling-block game, walls included.
#[derive(Clone, Debug)]
pub struct ExtendedGrid(pub [[u8; GRID_HEIGHT]; GRID_WIDTH]);

impl View for ExtendedGrid {
    type V = Cells;

    open spec fn view(&self) -> Cells {
        Seq::new(15, |x: int| self.0[x]@)
    }
}

impl Default for ExtendedGrid {
    /// The board at the start of a game.
    fn default() -> (grid: Self)
        ensures
            grid@ == empty_board(),
            grid.wf(),
    {
        let mut grid = ExtendedGrid([[EMPTY; GRID_HEIGHT]; GRID_WIDTH]);
        let mut x: usize = 0;
        while x < GRID_WIDTH
            invariant
                x <= GRID_WIDTH,
                forall|i: int, j: int|
                    in_grid(i, j) ==> #[trigger] grid.0[i][j] == (if i < x && !in_play(i, j) {
                        FILLED
                    } else {
                        EMPTY
                    }),
            decreases GRID_WIDTH - x,
        {
            let mut y: usize = 0;
            while y < GRID_HEIGHT
                invariant
                    x < GRID_WIDTH,
                    y <= GRID_HEIGHT,
                    forall|i: int, j: int|
                        in_grid(i, j) ==> #[trigger] grid.0[i][j] == (if (i < x || (i == x && j
                            < y)) && !in_play(i, j) {
                            FILLED
                        } else {
                            EMPTY
                        }),
                decreases GRID_HEIGHT - y,
            {
                if x < OFF || x >= OFF + WIDTH || y >= HEIGHT {
                    grid.0[x][y] = FILLED;
                }
                y += 1;
            }
            x += 1;
        }
        assert(grid@ =~~= empty_board());
        grid
    }
}

impl ExtendedGrid {
    /// Whether the walls of the board are in place.
    pub open spec fn wf(&self) -> bool {
        walls_filled(self@)
    }

    /// The view has the dimensions of the grid and holds the cells of the
    /// array.
    pub proof fn lemma_view(&self)
        ensures
            is_grid(self@),
            forall|x: int, y: int| in_grid(x, y) ==> #[trigger] self.0[x][y] == self@[x][y],
    {
    }

    /// Whether the walls of the board are in place.
    pub fn walls_in_place(&self) -> (ok: bool)
        ensures
            ok == self.wf(),
    {
        proof {
            self.lemma_view();
        }
        let mut x: usize = 0;
        while x < GRID_WIDTH
            invariant
                x <= GRID_WIDTH,
                forall|i: int, j: int| in_grid(i, j) ==> #[trigger] self.0[i][j] == self@[i][j],
                forall|i: int, j: int|
                    0 <= i < x && 0 <= j < 37 && !in_play(i, j) ==> #[trigger] self.0[i][j]
                        == FILLED,
            decreases GRID_WIDTH - x,
        {
            let mut y: usize = 0;
            while y < GRID_HEIGHT
                invariant
                    x < GRID_WIDTH,
                    y <= GRID_HEIGHT,
                    forall|i: int, j: int| in_grid(i, j) ==> #[trigger] self.0[i][j] == self@[i][j],
                    forall|i: int, j: int|
                        (0 <= i < x && 0 <= j < 37 || i == x && 0 <= j < y) && !in_play(i, j)
                            ==> #[trigger] self.0[i][j] == FILLED,
                decreases GRID_HEIGHT - y,
            {
                if (x < OFF || x >= OFF + WIDTH || y >= HEIGHT) && self.0[x][y] != FILLED {
                    return false;
                }
                y += 1;
            }
            x += 1;
        }
        true
    }

    /// Whether the cell at `pos` stops a piece.
    pub fn occupied(&self, pos: Position) -> (hit: bool)
        requires
            in_grid(pos.x as int, pos.y as int),
        ensures
            hit == occupied(self@, pos.x as int, pos.y as int),
    {
        self.0[pos.x as usize][pos.y as usize] == FILLED
    }

    /// Whether row `row` of the visible area is full.
    pub fn is_row_full(&self, row: usize) -> (full: bool)
        requires
            row < HEIGHT,
        ensures
            full == row_full(self@, row as int),
    {
        let mut full_row = true;
        let mut x: usize = 0;
        while x < WIDTH
            invariant
                x <= WIDTH,
                row < HEIGHT,
                full_row == (forall|i: int|
                    3 <= i < x + 3 ==> #[trigger] self.0[i][row as int] == FILLED),
            decreases WIDTH - x,
        {
            if self.0[x + 3][row] != FILLED {
                full_row = false;
            }
            x += 1;
        }
        proof {
            self.lemma_view();
        }
        full_row
    }

    /// Removes row `row` of the visible area: the rows above it sink by one,
    /// and the top row becomes free.
    pub fn remove_row(&mut self, row: usize)
        requires
            row < HEIGHT,
        ensures
            final(self)@ == without_row(old(self)@, row as int),
    {
        let ghost orig = self@;
        proof {
            self.lemma_view();
        }
        let mut r: usize = row;
        while r > 0
            invariant
                r <= row < HEIGHT,
                forall|i: int, j: int|
                    in_grid(i, j) ==> #[trigger] self.0[i][j] == (if 3 <= i < 12 && r < j <= row {
                        orig[i][j - 1]
                    } else {
                        orig[i][j]
                    }),
            decreases r,
        {
            let mut x: usize = 0;
            while x < WIDTH
                invariant
                    0 < r <= row < HEIGHT,
                    x <= WIDTH,
                    forall|i: int, j: int|
                        in_grid(i, j) ==> #[trigger] self.0[i][j] == (if 3 <= i < 12 && (r < j <= row
                            || (j == r && i < x + 3)) {
                            orig[i][j - 1]
                        } else {
                            orig[i][j]
                        }),
                decreases WIDTH - x,
            {
                let above = self.0[x + 3][r - 1];
                self.0[x + 3][r] = above;
                x += 1;
            }
            r -= 1;
        }
        let mut x: usize = 0;
        while x < WIDTH
            invariant
                row < HEIGHT,
                x <= WIDTH,
                forall|i: int, j: int|
                    in_grid(i, j) ==> #[trigger] self.0[i][j] == (if 3 <= i < 12 && 0 < j <= row {
                        orig[i][j - 1]
                    } else if 3 <= i < x + 3 && j == 0 {
                        EMPTY
                    } else {
                        orig[i][j]
                    }),
            decreases WIDTH - x,
        {
            self.0[x + 3][0] = EMPTY;
            x += 1;
        }
        assert(self@ =~~= without_row(orig, row as int));
    }

    /// The blocks of the board for drawing.
    pub fn blocks(&self) -> (blocks: [Block; GRID_CELLS])
        ensures
            blocks@ == board_blocks(self@),
    {
        proof {
            self.lemma_view();
        }
        let idle = Block { position: Position::new(0, 0), colour: Colour::Yellow };
        let mut blocks = [idle;GRID_CELLS];
        let mut i: usize = 0;
        while i < GRID_CELLS
            invariant
                i <= GRID_CELLS,
                idle == (Block { position: Position { x: 0, y: 0 }, colour: Colour::Yellow }),
                forall|x: int, y: int| in_grid(x, y) ==> #[trigger] self.0[x][y] == self@[x][y],
                forall|j: int| 0 <= j < i ==> #[trigger] blocks[j] == board_blocks(self@)[j],
            decreases GRID_CELLS - i,
        {
            let x = i % GRID_WIDTH;
            let y = i / GRID_WIDTH;
            if y < HEIGHT {
                let colour = if self.0[x][y] == FILLED && x > 2 {
                    Colour::Green
                } else {
                    Colour::Yellow
                };
                blocks[i] = Block { position: Position::new(x as i8, y as i8), colour };
            } else {
                blocks[i] = idle;
            }
            i += 1;
        }
        assert(blocks@ =~= board_blocks(self@));
        blocks
    }

    /// Removes the full rows of the visible area and returns their number.
    ///
    /// The rows are looked at from the bottom up. When a full row is removed
    /// the rows above it sink into its place, so the next row to look at is
    /// found in the place of the row just removed.
    pub fn compact_rows(&mut self) -> (score: u32)
        ensures
            score == full_rows(old(self)@),
            final(self)@ == compacted(old(self)@),
    {
        let ghost orig = self@;
        proof {
            self.lemma_view();
            lemma_compacting_start(orig);
        }
        let mut score: u32 = 0;
        let mut row: usize = HEIGHT;
        while row > 0
            invariant
                row <= 34,
                score == full_rows_from(orig, row as int),
                score + row <= 34,
                compacting(orig, self@, row as int, score as int),
            decreases row,
        {
            row -= 1;
            proof {
                lemma_compacting_next(orig, self@, row as int, score as int);
            }
            let at: usize = row + score as usize;
            if self.is_row_full(at) {
                proof {
                    lemma_compacting_remove(orig, self@, row as int, score as int);
                }
                self.remove_row(at);
                score += 1;
            } else {
                proof {
                    lemma_compacting_keep(orig, self@, row as int, score as int);
                }
            }
        }
        proof {
            lemma_compacting_done(orig, self@);
        }
        score
    }
}

/// Whether the scan of [`ExtendedGridIterator`] stops at `(x, y)`: the cell
/// is filled and lies right of column 3.
pub open spec fn scan_stops(cells: Cells, x: int, y: int) -> bool {
    cells[x][y] == FILLED && x > 3
}

/// Whether the scan of [`ExtendedGridIterator`] that started at
/// `(from_x, from_y)` looks at `(x, y)` before `(to_x, to_y)`. The scan goes
/// through the columns from `from_x` to column 8 and, in each of them,
/// through the rows from `from_y` to the last visible row.
pub open spec fn scanned_before(
    from_x: int,
    from_y: int,
    x: int,
    y: int,
    to_x: int,
    to_y: int,
) -> bool {
    from_x <= x < 9 && from_y <= y < 34 && (x < to_x || (x == to_x && y < to_y))
}

/// A scan over the filled cells of a board.
pub struct ExtendedGridIterator<'a> {
    grid: &'a ExtendedGrid,
    x: usize,
    y: usize,
}

impl<'a> ExtendedGridIterator<'a> {
    /// The board that is scanned.
    pub closed spec fn cells(&self) -> Cells {
        self.grid@
    }

    /// The column and row at which the next scan starts.
    pub closed spec fn at(&self) -> (int, int) {
        (self.x as int, self.y as int)
    }

    /// A scan of `grid` that starts in its top left corner.
    pub fn new(grid: &'a ExtendedGrid) -> (iter: Self)
        ensures
            iter.cells() == grid@,
            iter.at() == (0int, 0int),
    {
        ExtendedGridIterator { grid, x: 0, y: 0 }
    }

    /// Scans on from where the last scan stopped and returns a green block
    /// for the first cell at which the scan stops, one row below that cell;
    /// the next scan starts there. When the scan stops nowhere it returns
    /// `None`, and the next scan starts at the last cell looked at.
    pub fn next(&mut self) -> (found: Option<Block>)
        ensures
            final(self).cells() == old(self).cells(),
            match found {
                Some(block) => {
                    let (x, y) = (final(self).at().0, final(self).at().1 - 1);
                    &&& old(self).at().0 <= x < 9
                    &&& old(self).at().1 <= y < 34
                    &&& scan_stops(old(self).cells(), x, y)
                    &&& forall|i: int, j: int|
                        scanned_before(old(self).at().0, old(self).at().1, i, j, x, y)
                            ==> !#[trigger] scan_stops(old(self).cells(), i, j)
                    &&& block == (Block {
                        position: Position { x: x as u8, y: (y + 1) as u8 },
                        colour: Colour::Green,
                    })
                },
                None => {
                    &&& forall|i: int, j: int|
                        scanned_before(old(self).at().0, old(self).at().1, i, j, 9, 0)
                            ==> !#[trigger] scan_stops(old(self).cells(), i, j)
                    &&& final(self).at() == (if old(self).at().0 < 9 && old(self).at().1 < 34 {
                        (8int, 33int)
                    } else {
                        old(self).at()
                    })
                },
            },
    {
        proof {
            self.grid.lemma_view();
        }
        let x_start = self.x;
        let y_start = self.y;
        let mut x: usize = x_start;
        while x < WIDTH
            invariant
                x_start <= x,
                self.grid == old(self).grid,
                forall|i: int, j: int| in_grid(i, j) ==> #[trigger] self.grid.0[i][j] == self.grid@[i][j],
                x_start == old(self).x,
                y_start == old(self).y,
                forall|i: int, j: int|
                    scanned_before(x_start as int, y_start as int, i, j, x as int, 0)
                        ==> !#[trigger] scan_stops(self.grid@, i, j),
                self.at() == (if x_start < x && x_start < 9 && y_start < 34 {
                    (x - 1, 33int)
                } else {
                    old(self).at()
                }),
                x_start < 9 ==> x <= 9,
            decreases WIDTH - x,
        {
            let mut y: usize = y_start;
            while y < HEIGHT
                invariant
                    x_start <= x < WIDTH,
                    y_start <= y,
                    self.grid == old(self).grid,
                    forall|i: int, j: int|
                        in_grid(i, j) ==> #[trigger] self.grid.0[i][j] == self.grid@[i][j],
                    x_start == old(self).x,
                    y_start == old(self).y,
                    forall|i: int, j: int|
                        scanned_before(x_start as int, y_start as int, i, j, x as int, y as int)
                            ==> !#[trigger] scan_stops(self.grid@, i, j),
                    self.at() == (if y_start < y {
                        (x as int, y - 1)
                    } else if x_start < x && y_start < 34 {
                        (x - 1, 33int)
                    } else {
                        old(self).at()
                    }),
                    y_start < 34 ==> y <= 34,
                    y_start >= 34 ==> y == y_start,
                decreases HEIGHT - y,
            {
                self.x = x;
                self.y = y;
                if self.grid.0[x][y] == FILLED && x > 3 && x < WIDTH + 6 && y < HEIGHT {
                    self.y += 1;
                    return Some(
                        Block {
                            position: Position::new(self.x as i8, self.y as i8),
                            colour: Colour::Green,
                        },
                    );
                }
                y += 1;
            }
            x += 1;
        }
        None
    }
}

/// The cells of a piece in a square of four by four, row by row: a `1`
/// marks a cell that belongs to the piece.
pub type PieceShape = [[u8; 4]; 4];

/// The catalogue of pieces: for each shape and rotation, an anchor offset
/// and the cells of the piece.
///
/// Shape 0 is a bar of four cells, which has only two distinct rotations;
/// shape 1 is an L. The anchor offset is kept for reference; the cells of a
/// piece on the board are found from its position and the cell square alone.
pub open spec fn spec_piece_shape(shape: int, rotation: Direction) -> ((i8, i8), Seq<Seq<u8>>) {
    if shape == 0 {
        match rotation {
            Direction::UP => (
                (0i8, -1i8),
                seq![
                    seq![0u8, 0u8, 0u8, 0u8],
                    seq![1u8, 1u8, 1u8, 1u8],
                    seq![0u8, 0u8, 0u8, 0u8],
                    seq![0u8, 0u8, 0u8, 0u8],
                ],
            ),
            Direction::DOWN => (
                (-1i8, 0i8),
                seq![
                    seq![0u8, 1u8, 0u8, 0u8],
                    seq![0u8, 1u8, 0u8, 0u8],
                    seq![0u8, 1u8, 0u8, 0u8],
                    seq![0u8, 1u8, 0u8, 0u8],
                ],
            ),
            Direction::LEFT => (
                (0i8, -1i8),
                seq![
                    seq![0u8, 0u8, 0u8, 0u8],
                    seq![1u8, 1u8, 1u8, 1u8],
                    seq![0u8, 0u8, 0u8, 0u8],
                    seq![0u8, 0u8, 0u8, 0u8],
                ],
            ),
            _ => (
                (0i8, -1i8),
                seq![
                    seq![0u8, 1u8, 0u8, 0u8],
                    seq![0u8, 1u8, 0u8, 0u8],
                    seq![0u8, 1u8, 0u8, 0u8],
                    seq![0u8, 1u8, 0u8, 0u8],
                ],
            ),
        }
    } else {
        match rotation {
            Direction::UP => (
                (-1i8, 0i8),
                seq![
                    seq![0u8, 0u8, 0u8, 0u8],
                    seq![0u8, 1u8, 1u8, 1u8],
                    seq![0u8, 1u8, 0u8, 0u8],
                    seq![0u8, 0u8, 0u8, 0u8],
                ],
            ),
            Direction::DOWN => (
                (-1i8, 0i8),
                seq![
                    seq![0u8, 0u8, 0u8, 0u8],
                    seq![0u8, 1u8, 1u8, 0u8],
                    seq![0u8, 0u8, 1u8, 0u8],
                    seq![0u8, 0u8, 1u8, 0u8],
                ],
            ),
            Direction::LEFT => (
                (-1i8, 0i8),
                seq![
                    seq![0u8, 0u8, 0u8, 0u8],
                    seq![0u8, 0u8, 1u8, 0u8],
                    seq![1u8, 1u8, 1u8, 0u8],
                    seq![0u8, 0u8, 0u8, 0u8],
                ],
            ),
            _ => (
                (-1i8, 0i8),
                seq![
                    seq![0u8, 1u8, 0u8, 0u8],
                    seq![0u8, 1u8, 0u8, 0u8],
                    seq![0u8, 1u8, 1u8, 0u8],
                    seq![0u8, 0u8, 0u8, 0u8],
                ],
            ),
        }
    }
}

/// Looks a shape and rotation up in the catalogue.
pub fn piece_shape(shape: usize, rotation: Direction) -> (entry: ((i8, i8), PieceShape))
    requires
        shape < 2,
        rotation.is_primary(),
    ensures
        entry.0 == spec_piece_shape(shape as int, rotation).0,
        forall|bx: int, by: int|
            0 <= bx < 4 && 0 <= by < 4 ==> #[trigger] entry.1[by][bx] == spec_piece_shape(
                shape as int,
                rotation,
            ).1[by][bx],
{
    if shape == 0 {
        match rotation {
            Direction::UP => ((0, -1), [[0, 0, 0, 0], [1, 1, 1, 1], [0, 0, 0, 0], [0, 0, 0, 0]]),
            Direction::DOWN => ((-1, 0), [[0, 1, 0, 0], [0, 1, 0, 0], [0, 1, 0, 0], [0, 1, 0, 0]]),
            Direction::LEFT => ((0, -1), [[0, 0, 0, 0], [1, 1, 1, 1], [0, 0, 0, 0], [0, 0, 0, 0]]),
            _ => ((0, -1), [[0, 1, 0, 0], [0, 1, 0, 0], [0, 1, 0, 0], [0, 1, 0, 0]]),
        }
    } else {
        match rotation {
            Direction::UP => ((-1, 0), [[0, 0, 0, 0], [0, 1, 1, 1], [0, 1, 0, 0], [0, 0, 0, 0]]),
            Direction::DOWN => ((-1, 0), [[0, 0, 0, 0], [0, 1, 1, 0], [0, 0, 1, 0], [0, 0, 1, 0]]),
            Direction::LEFT => ((-1, 0), [[0, 0, 0, 0], [0, 0, 1, 0], [1, 1, 1, 0], [0, 0, 0, 0]]),
            _ => ((-1, 0), [[0, 1, 0, 0], [0, 1, 0, 0], [0, 1, 1, 0], [0, 0, 0, 0]]),
        }
    }
}

/// Whether the cell square of the given shape and rotation has a cell of
/// the piece in column `bx` and row `by`.
pub open spec fn shape_has_block(shape: int, rotation: Direction, bx: int, by: int) -> bool {
    0 <= bx < 4 && 0 <= by < 4 && spec_piece_shape(shape, rotation).1[by][bx] == 1
}

/// Every piece of the catalogue has a cell in the second column of its
/// square, in the second or third row.
pub proof fn lemma_shape_has_inner_block(shape: int, rotation: Direction)
    requires
        0 <= shape < 2,
        rotation.is_primary(),
    ensures
        shape_has_block(shape, rotation, 1, 1) || shape_has_block(shape, rotation, 1, 2),
{
}

/// The falling piece: a shape of the catalogue, its rotation, and the
/// position on the grid of the top left corner of its cell square.
#[derive(Clone, Copy, Debug, PartialEq, Eq, Structural)]
pub struct Piece {
    pub shape: usize,
    pub rotation: Direction,
    pub pos: Position,
}

impl Piece {
    /// Whether the piece is one of the catalogue, anchored on the grid.
    pub open spec fn wf(&self) -> bool {
        &&& self.shape < 2
        &&& self.rotation.is_primary()
        &&& in_grid(self.pos.x as int, self.pos.y as int)
    }

    /// Whether the piece has a cell in column `bx` and row `by` of its cell
    /// square.
    pub open spec fn has_block(&self, bx: int, by: int) -> bool {
        shape_has_block(self.shape as int, self.rotation, bx, by)
    }

    /// Whether the piece has a cell at `(x, y)` of the grid.
    pub open spec fn covers(&self, x: int, y: int) -> bool {
        self.has_block(x - self.pos.x, y - self.pos.y)
    }

    /// Whether every cell of the piece is a cell of the grid.
    pub open spec fn within_grid(&self) -> bool {
        forall|bx: int, by: int| #[trigger]
            self.has_block(bx, by) ==> in_grid(self.pos.x + bx, self.pos.y + by)
    }

    /// Whether the piece is one that can appear at the top of the board: any
    /// shape and rotation, its cell square in the top row and inside the
    /// visible columns.
    pub open spec fn is_spawn(&self) -> bool {
        &&& self.shape < 2
        &&& self.rotation.is_primary()
        &&& 3 <= self.pos.x < 9
        &&& self.pos.y == 0
    }

    /// The piece turned a quarter clockwise, in place.
    pub open spec fn turned(self) -> Piece {
        Piece { rotation: self.rotation.spec_next_cw(), ..self }
    }

    /// The piece moved by `dx` and `dy`.
    pub open spec fn moved(self, dx: i8, dy: i8) -> Piece {
        Piece { pos: self.pos.spec_offset_blockdrop(dx, dy), ..self }
    }

    /// The piece that an input asks for: `UP` turns it, the other three
    /// directions of the first player move it by one cell, and any other
    /// input leaves it as it is.
    pub open spec fn candidate(self, dir: Direction) -> Piece {
        match dir {
            Direction::UP => self.turned(),
            Direction::DOWN => self.moved(0, 1),
            Direction::LEFT => self.moved(-1i8, 0),
            Direction::RIGHT => self.moved(1, 0),
            _ => self,
        }
    }

    /// The sixteen blocks of the cell square, row by row. A cell of the
    /// piece gives a green block at its place on the grid; any other cell
    /// gives a yellow block at the origin.
    pub open spec fn spec_blocks(&self) -> Seq<Block> {
        Seq::new(
            16,
            |i: int|
                if self.has_block(i % 4, i / 4) {
                    Block {
                        position: Position {
                            x: (self.pos.x + i % 4) as u8,
                            y: (self.pos.y + i / 4) as u8,
                        },
                        colour: Colour::Green,
                    }
                } else {
                    Block { position: Position { x: 0, y: 0 }, colour: Colour::Yellow }
                },
        )
    }

    /// Whether the piece is one of the catalogue and each of its cells is a
    /// cell of the grid.
    pub fn is_on_grid(&self) -> (ok: bool)
        ensures
            ok == (self.wf() && self.within_grid()),
    {
        if self.shape >= 2 || self.pos.x >= 15 || self.pos.y >= 37 {
            return false;
        }
        match self.rotation {
            Direction::UP | Direction::DOWN | Direction::LEFT | Direction::RIGHT => {},
            _ => {
                return false;
            },
        }
        let (_offset, shape) = piece_shape(self.shape, self.rotation);
        let mut i: usize = 0;
        while i < 16
            invariant
                i <= 16,
                self.wf(),
                forall|bx: int, by: int|
                    0 <= bx < 4 && 0 <= by < 4 ==> #[trigger] shape[by][bx] == spec_piece_shape(
                        self.shape as int,
                        self.rotation,
                    ).1[by][bx],
                forall|bx: int, by: int|
                    0 <= by < 4 && 0 <= bx < 4 && bx + 4 * by < i && #[trigger] self.has_block(
                        bx,
                        by,
                    ) ==> in_grid(self.pos.x + bx, self.pos.y + by),
            decreases 16 - i,
        {
            let bx = i % 4;
            let by = i / 4;
            if shape[by][bx] == 1 && (self.pos.x as usize + bx >= 15 || self.pos.y as usize + by
                >= 37) {
                assert(self.has_block(bx as int, by as int));
                return false;
            }
            i += 1;
        }
        true
    }

    /// The piece that appears for the given draws: `shape` and `rotation`
    /// pick the entry of the catalogue, the rotations counted in the order
    /// up, down, left, right, and `x` is the column of the cell square.
    pub fn spawn(shape: usize, rotation: usize, x: u8) -> (piece: Piece)
        requires
            shape < 2,
            rotation < 4,
            3 <= x < 9,
        ensures
            piece.is_spawn(),
            piece.shape == shape,
            piece.rotation == (if rotation == 0 {
                Direction::UP
            } else if rotation == 1 {
                Direction::DOWN
            } else if rotation == 2 {
                Direction::LEFT
            } else {
                Direction::RIGHT
            }),
            piece.pos == (Position { x, y: 0 }),
    {
        let rotations = [Direction::UP, Direction::DOWN, Direction::LEFT, Direction::RIGHT];
        Piece { shape, rotation: rotations[rotation], pos: Position::new(x as i8, 0) }
    }

    /// A piece drawn at random for the top of the board.
    pub fn random() -> (piece: Piece)
        ensures
            piece.is_spawn(),
    {
        let shape = random_in(0, 2);
        let rotation = random_in(0, 4);
        let x = random_in(3, WIDTH);
        Piece::spawn(shape, rotation, x as u8)
    }

    /// The sixteen blocks of the cell square of the piece.
    pub fn blocks(&self) -> (blocks: [Block; 16])
        requires
            self.wf(),
        ensures
            blocks@ == self.spec_blocks(),
    {
        let (_offset, shape) = piece_shape(self.shape, self.rotation);
        let idle = Block { position: Position::new(0, 0), colour: Colour::Yellow };
        let mut blocks = [idle;16];
        let mut i: usize = 0;
        while i < 16
            invariant
                i <= 16,
                self.wf(),
                idle == (Block { position: Position { x: 0, y: 0 }, colour: Colour::Yellow }),
                forall|bx: int, by: int|
                    0 <= bx < 4 && 0 <= by < 4 ==> #[trigger] shape[by][bx] == spec_piece_shape(
                        self.shape as int,
                        self.rotation,
                    ).1[by][bx],
                forall|j: int| 0 <= j < i ==> #[trigger] blocks[j] == self.spec_blocks()[j],
            decreases 16 - i,
        {
            let x = i % 4;
            let y = i / 4;
            if shape[y][x] == 1 {
                let res_x = (self.pos.x as i8) + (x as i8);
                let res_y = (self.pos.y as i8) + (y as i8);
                blocks[i] = Block { position: Position::new(res_x, res_y), colour: Colour::Green };
            } else {
                blocks[i] = idle;
            }
            i += 1;
        }
        assert(blocks@ =~= self.spec_blocks());
        blocks
    }
}

/// Whether cell `i` of the cell square of `piece`, counted row by row, is a
/// cell of the piece that lies on an occupied cell of the board.
pub open spec fn hits(cells: Cells, piece: Piece, i: int) -> bool {
    piece.has_block(i % 4, i / 4) && occupied(cells, piece.pos.x + i % 4, piece.pos.y + i / 4)
}

/// Whether `piece` has no room on the board: one of its cells lies on an
/// occupied cell.
pub open spec fn collides(cells: Cells, piece: Piece) -> bool {
    exists|i: int| 0 <= i < 16 && #[trigger] hits(cells, piece, i)
}

/// The board with the cells of `piece` filled.
pub open spec fn landed(cells: Cells, piece: Piece) -> Cells {
    Seq::new(
        15,
        |x: int|
            Seq::new(
                37,
                |y: int|
                    if piece.covers(x, y) {
                        FILLED
                    } else {
                        cells[x][y]
                    },
            ),
    )
}

/// A piece collides exactly if one of its cells lies on an occupied cell of
/// the board, whatever made that cell occupied: a wall and a landed block
/// are the same to it.
pub proof fn lemma_collides(cells: Cells, piece: Piece)
    ensures
        collides(cells, piece) <==> exists|x: int, y: int| #[trigger]
            piece.covers(x, y) && cells[x][y] == FILLED,
{
    if collides(cells, piece) {
        let i = choose|i: int| 0 <= i < 16 && #[trigger] hits(cells, piece, i);
        assert(piece.covers(piece.pos.x + i % 4, piece.pos.y + i / 4));
    }
    if exists|x: int, y: int| #[trigger] piece.covers(x, y) && cells[x][y] == FILLED {
        let (x, y) = choose|x: int, y: int| #[trigger]
            piece.covers(x, y) && cells[x][y] == FILLED;
        let bx = x - piece.pos.x;
        let by = y - piece.pos.y;
        let i = bx + 4 * by;
        assert(i % 4 == bx && i / 4 == by);
        assert(hits(cells, piece, i));
    }
}

/// A piece with a cell in a wall collides, just as one with a cell on a
/// landed block does.
pub proof fn lemma_collides_with_wall(cells: Cells, piece: Piece, x: int, y: int)
    requires
        walls_filled(cells),
        piece.covers(x, y),
        in_grid(x, y),
        !in_play(x, y),
    ensures
        collides(cells, piece),
{
    lemma_collides(cells, piece);
}

/// A piece that has room on a walled board lies in the visible area, and
/// each of the pieces that an input can ask for in its place lies on the
/// grid.
pub proof fn lemma_candidate_within_grid(cells: Cells, piece: Piece, dir: Direction)
    requires
        walls_filled(cells),
        piece.wf(),
        piece.within_grid(),
        !collides(cells, piece),
    ensures
        forall|x: int, y: int| #[trigger] piece.covers(x, y) ==> in_play(x, y),
        piece.pos.x <= 10,
        piece.pos.y <= 32,
        piece.candidate(dir).wf(),
        piece.candidate(dir).within_grid(),
{
    assert forall|x: int, y: int| #[trigger] piece.covers(x, y) implies in_play(x, y) by {
        let bx = x - piece.pos.x;
        let by = y - piece.pos.y;
        let i = bx + 4 * by;
        assert(i % 4 == bx && i / 4 == by);
        assert(piece.has_block(bx, by));
        assert(!hits(cells, piece, i));
        assert(in_grid(x, y));
        assert(cells[x][y] != FILLED);
    }
    lemma_shape_has_inner_block(piece.shape as int, piece.rotation);
    if piece.has_block(1, 1) {
        assert(piece.covers(piece.pos.x + 1, piece.pos.y + 1));
    } else {
        assert(piece.covers(piece.pos.x + 1, piece.pos.y + 2));
    }
    lemma_calc_offset_unit(piece.pos.x, 15);
    lemma_calc_offset_unit(piece.pos.y, 37);
}

impl ExtendedGrid {
    /// Fills the cells of `piece`.
    pub fn lock(&mut self, piece: &Piece)
        requires
            piece.wf(),
            piece.within_grid(),
        ensures
            final(self)@ == landed(old(self)@, *piece),
    {
        let ghost orig = self@;
        proof {
            self.lemma_view();
        }
        let blocks = piece.blocks();
        let mut i: usize = 0;
        while i < 16
            invariant
                i <= 16,
                piece.wf(),
                piece.within_grid(),
                blocks@ == piece.spec_blocks(),
                forall|x: int, y: int|
                    in_grid(x, y) ==> #[trigger] self.0[x][y] == (if piece.covers(x, y) && (x
                        - piece.pos.x) + 4 * (y - piece.pos.y) < i {
                        FILLED
                    } else {
                        orig[x][y]
                    }),
            decreases 16 - i,
        {
            let b = blocks[i];
            assert(b == piece.spec_blocks()[i as int]);
            if b.colour == Colour::Green {
                assert(piece.has_block(i as int % 4, i as int / 4));
                self.0[b.position.x as usize][b.position.y as usize] = FILLED;
            }
            i += 1;
        }
        assert(self@ =~~= landed(orig, *piece));
    }

    /// Whether `piece` has no room on the board: one of its cells lies on an
    /// occupied cell.
    pub fn collides_with(&self, piece: &Piece) -> (hit: bool)
        requires
            piece.wf(),
            piece.within_grid(),
        ensures
            hit == collides(self@, *piece),
    {
        proof {
            self.lemma_view();
        }
        let blocks = piece.blocks();
        let mut i: usize = 0;
        while i < 16
            invariant
                i <= 16,
                piece.wf(),
                piece.within_grid(),
                blocks@ == piece.spec_blocks(),
                forall|x: int, y: int| in_grid(x, y) ==> #[trigger] self.0[x][y] == self@[x][y],
                forall|j: int| 0 <= j < i ==> !#[trigger] hits(self@, *piece, j),
            decreases 16 - i,
        {
            let b = blocks[i];
            assert(b == piece.spec_blocks()[i as int]);
            if b.colour == Colour::Green {
                assert(piece.has_block(i as int % 4, i as int / 4));
                if self.0[b.position.x as usize][b.position.y as usize] == FILLED {
                    assert(hits(self@, *piece, i as int));
                    return true;
                }
            }
            i += 1;
        }
        false
    }
}

/// The state of a game: the clock, the score, the board, the falling piece,
/// and whether the game is over.
pub struct GameModel {
    pub time: u32,
    pub score: nat,
    pub board: Cells,
    pub piece: Piece,
    pub game_over: bool,
}

impl GameModel {
    /// Whether the state is one of a game: the board has the dimensions of
    /// the grid and its walls are in place, the piece is one of the
    /// catalogue and lies on the grid, and while the game is on the piece
    /// has room.
    pub open spec fn wf(self) -> bool {
        &&& is_grid(self.board)
        &&& walls_filled(self.board)
        &&& self.piece.wf()
        &&& self.piece.within_grid()
        &&& !self.game_over ==> !collides(self.board, self.piece)
    }

    /// The state at the start of a game in which `piece` is the first to
    /// fall.
    pub open spec fn start(piece: Piece) -> GameModel {
        GameModel { time: 0, score: 0, board: empty_board(), piece, game_over: false }
    }

    /// The board with the falling piece merged into it.
    pub open spec fn landed_board(self) -> Cells {
        landed(self.board, self.piece)
    }

    /// The state after the falling piece has landed and `spawn` has appeared
    /// in its place: the piece is merged into the board, the full rows are
    /// removed and counted into the score, and the game is over if `spawn`
    /// has no room.
    pub open spec fn land(self, spawn: Piece) -> GameModel {
        let board = compacted(self.landed_board());
        GameModel {
            time: self.time,
            score: self.score + full_rows(self.landed_board()),
            board,
            piece: spawn,
            game_over: self.game_over || collides(board, spawn),
        }
    }

    /// Whether the input `dir` makes the falling piece land: the game is on,
    /// the input asks the piece to move down, and it has no room there.
    pub open spec fn lands_on(self, dir: Direction) -> bool {
        !self.game_over && dir == Direction::DOWN && collides(
            self.board,
            self.piece.candidate(dir),
        )
    }

    /// The state after the input `dir`, where `spawn` is the piece that
    /// appears if the falling piece lands.
    ///
    /// Nothing happens once the game is over. Otherwise the piece that the
    /// input asks for takes the place of the falling piece if it has room.
    /// If it has none, a move down makes the piece land, and any other input
    /// is dropped.
    pub open spec fn input(self, dir: Direction, spawn: Piece) -> GameModel {
        if self.game_over {
            self
        } else if !collides(self.board, self.piece.candidate(dir)) {
            GameModel { piece: self.piece.candidate(dir), ..self }
        } else if dir == Direction::DOWN {
            self.land(spawn)
        } else {
            self
        }
    }

    /// The state after one tick of the clock: the piece falls by one row,
    /// as on the input of a move down, whatever time has passed.
    pub open spec fn tick(self, spawn: Piece) -> GameModel {
        self.input(Direction::DOWN, spawn)
    }
}

/// A piece that can appear at the top is one of the catalogue and lies on
/// the grid, and it has room on the board at the start of a game.
pub proof fn lemma_spawn(spawn: Piece)
    requires
        spawn.is_spawn(),
    ensures
        spawn.wf(),
        spawn.within_grid(),
        !collides(empty_board(), spawn),
        GameModel::start(spawn).wf(),
{
    assert forall|i: int| 0 <= i < 16 implies !#[trigger] hits(empty_board(), spawn, i) by {
        assert(in_play(spawn.pos.x + i % 4, spawn.pos.y + i / 4));
    }
}

/// Merging a piece into a board leaves the walls in place, and every filled
/// cell filled.
pub proof fn lemma_landed(cells: Cells, piece: Piece)
    requires
        is_grid(cells),
    ensures
        is_grid(landed(cells, piece)),
        walls_filled(cells) ==> walls_filled(landed(cells, piece)),
        forall|x: int, y: int|
            in_grid(x, y) && cells[x][y] == FILLED ==> #[trigger] landed(cells, piece)[x][y]
                == FILLED,
{
}

/// Landing keeps a state one of a game and never clears a cell of a wall. It
/// adds to the score the number of full rows of the board with the piece
/// merged into it, which is no more than the board has rows, and leaves no
/// full row.
pub proof fn lemma_land(state: GameModel, spawn: Piece)
    requires
        state.wf(),
        spawn.is_spawn(),
    ensures
        state.land(spawn).wf(),
        same_walls(state.land(spawn).board, state.board),
        state.land(spawn).score == state.score + full_rows(state.landed_board()),
        state.land(spawn).score <= state.score + 34,
        full_rows(state.land(spawn).board) == 0,
{
    lemma_landed(state.board, state.piece);
    lemma_compacted(state.landed_board());
    lemma_full_rows_bound(state.landed_board(), 0);
    lemma_spawn(spawn);
    let after = state.land(spawn).board;
    assert forall|x: int, y: int| in_grid(x, y) && !in_play(x, y) implies #[trigger] after[x][y]
        == FILLED && after[x][y] == state.board[x][y] by {
        assert(state.landed_board()[x][y] == FILLED);
        assert(state.board[x][y] == FILLED);
    }
}

/// Every input keeps a state one of a game; the walls stay filled and no
/// input clears a cell of them.
pub proof fn lemma_input_keeps_walls(state: GameModel, dir: Direction, spawn: Piece)
    requires
        state.wf(),
        spawn.is_spawn(),
    ensures
        state.input(dir, spawn).wf(),
        walls_filled(state.input(dir, spawn).board),
        same_walls(state.input(dir, spawn).board, state.board),
        state.tick(spawn).wf(),
        same_walls(state.tick(spawn).board, state.board),
{
    lemma_land(state, spawn);
    if !state.game_over {
        lemma_candidate_within_grid(state.board, state.piece, dir);
        lemma_candidate_within_grid(state.board, state.piece, Direction::DOWN);
    }
}

/// The score never goes down. It changes only when the piece lands, and
/// then it grows by the number of rows that landing removes.
pub proof fn lemma_score(state: GameModel, dir: Direction, spawn: Piece)
    ensures
        state.input(dir, spawn).score >= state.score,
        state.tick(spawn).score >= state.score,
        state.lands_on(dir) ==> state.input(dir, spawn).score == state.score + full_rows(
            state.landed_board(),
        ),
        !state.lands_on(dir) ==> state.input(dir, spawn).score == state.score,
{
}

/// Once the game is over it stays over, and neither an input nor a tick
/// changes anything.
pub proof fn lemma_game_over_latch(state: GameModel, dir: Direction, spawn: Piece)
    ensures
        state.game_over ==> state.input(dir, spawn) == state && state.tick(spawn) == state,
        state.game_over ==> state.input(dir, spawn).game_over && state.tick(spawn).game_over,
        state.game_over ==> state.land(spawn).game_over,
{
}

/// One event of a game: an input, and the piece that appears if the falling
/// piece lands on it. A tick of the clock is the input of a move down.
pub struct Event {
    pub dir: Direction,
    pub spawn: Piece,
}

/// The state after a sequence of events.
pub open spec fn after_events(state: GameModel, events: Seq<Event>) -> GameModel
    decreases events.len(),
{
    if events.len() == 0 {
        state
    } else {
        after_events(state, events.drop_last()).input(events.last().dir, events.last().spawn)
    }
}

/// Whatever happens in a game, the state stays one of a game with its walls
/// filled and untouched, the score does not go down, and a game that is over
/// stays as it is.
pub proof fn lemma_after_events(state: GameModel, events: Seq<Event>)
    requires
        state.wf(),
        forall|i: int| 0 <= i < events.len() ==> (#[trigger] events[i]).spawn.is_spawn(),
    ensures
        after_events(state, events).wf(),
        walls_filled(after_events(state, events).board),
        same_walls(after_events(state, events).board, state.board),
        after_events(state, events).score >= state.score,
        state.game_over ==> after_events(state, events) == state,
    decreases events.len(),
{
    if events.len() > 0 {
        let before = after_events(state, events.drop_last());
        lemma_after_events(state, events.drop_last());
        lemma_input_keeps_walls(before, events.last().dir, events.last().spawn);
        lemma_score(before, events.last().dir, events.last().spawn);
        lemma_game_over_latch(before, events.last().dir, events.last().spawn);
    }
}

/// The falling-block game.
pub struct BlockdropG {
    pub time: u32,
    pub score: u32,
    pub board: ExtendedGrid,
    pub piece: Piece,
    pub game_over: bool,
}

impl View for BlockdropG {
    type V = GameModel;

    open spec fn view(&self) -> GameModel {
        GameModel {
            time: self.time,
            score: self.score as nat,
            board: self.board@,
            piece: self.piece,
            game_over: self.game_over,
        }
    }
}

impl BlockdropG {
    /// A new game, with a piece drawn at random.
    pub fn new() -> (game: BlockdropG)
        ensures
            game@ == GameModel::start(game.piece),
            game.piece.is_spawn(),
            game@.wf(),
    {
        let piece = Piece::random();
        proof {
            lemma_spawn(piece);
        }
        BlockdropG {
            time: 0,
            score: 0,
            board: ExtendedGrid::default(),
            piece,
            game_over: false,
        }
    }

    /// Starts the game afresh, with a piece drawn at random.
    pub fn init(&mut self)
        ensures
            final(self)@ == GameModel::start(final(self).piece),
            final(self).piece.is_spawn(),
            final(self)@.wf(),
    {
        self.time = 0;
        self.score = 0;
        self.board = ExtendedGrid::default();
        self.piece = Piece::random();
        self.game_over = false;
        proof {
            lemma_spawn(self.piece);
        }
    }

    /// Whether the state is one of a game.
    pub fn is_valid(&self) -> (valid: bool)
        ensures
            valid == self@.wf(),
    {
        proof {
            self.board.lemma_view();
        }
        if !self.board.walls_in_place() {
            return false;
        }
        if !self.piece.is_on_grid() {
            return false;
        }
        self.game_over || !self.check_collision(&self.piece)
    }

    /// The blocks of the game for drawing: those of the falling piece, then
    /// those of the board.
    pub fn blocks(&self) -> (bs: Vec<Block>)
        requires
            self.piece.wf(),
        ensures
            bs@ == self.piece.spec_blocks() + board_blocks(self.board@),
    {
        let mut bs: Vec<Block> = Vec::new();
        let of_piece = self.piece.blocks();
        let mut i: usize = 0;
        while i < 16
            invariant
                i <= 16,
                of_piece@ == self.piece.spec_blocks(),
                bs@ == self.piece.spec_blocks().subrange(0, i as int),
            decreases 16 - i,
        {
            bs.push(of_piece[i]);
            assert(bs@ =~= self.piece.spec_blocks().subrange(0, i + 1));
            i += 1;
        }
        let of_board = self.board.blocks();
        let mut i: usize = 0;
        while i < GRID_CELLS
            invariant
                i <= GRID_CELLS,
                of_board@ == board_blocks(self.board@),
                bs@ == self.piece.spec_blocks() + board_blocks(self.board@).subrange(0, i as int),
            decreases GRID_CELLS - i,
        {
            bs.push(of_board[i]);
            assert(bs@ =~= self.piece.spec_blocks() + board_blocks(self.board@).subrange(
                0,
                i + 1,
            ));
            i += 1;
        }
        assert(bs@ =~= self.piece.spec_blocks() + board_blocks(self.board@));
        bs
    }

    /// The direction with the given number: right, up, left, down.
    pub fn _get_direction_from_index(&self, index: usize) -> (dir: Direction)
        requires
            index < 4,
        ensures
            dir == (if index == 0 {
                Direction::RIGHT
            } else if index == 1 {
                Direction::UP
            } else if index == 2 {
                Direction::LEFT
            } else {
                Direction::DOWN
            }),
    {
        match index {
            0 => Direction::RIGHT,
            1 => Direction::UP,
            2 => Direction::LEFT,
            _ => Direction::DOWN,
        }
    }

    /// Merges the falling piece into the board.
    pub fn save(&mut self)
        requires
            old(self).piece.wf(),
            old(self).piece.within_grid(),
        ensures
            final(self)@ == (GameModel { board: old(self)@.landed_board(), ..old(self)@ }),
    {
        self.board.lock(&self.piece);
    }

    /// Whether `piece` has no room on the board.
    pub fn check_collision(&self, piece: &Piece) -> (hit: bool)
        requires
            piece.wf(),
            piece.within_grid(),
        ensures
            hit == collides(self.board@, *piece),
    {
        self.board.collides_with(piece)
    }

    /// Lands the falling piece and puts `spawn` in its place: the piece is
    /// merged into the board, the full rows are removed and counted into
    /// the score, and the game is over if `spawn` has no room.
    pub fn fallen_down(&mut self, spawn: Piece)
        requires
            old(self).piece.wf(),
            old(self).piece.within_grid(),
            spawn.wf(),
            spawn.within_grid(),
            old(self).score + HEIGHT <= u32::MAX,
        ensures
            final(self)@ == old(self)@.land(spawn),
            old(self).score <= final(self).score <= old(self).score + HEIGHT,
    {
        self.save();
        proof {
            lemma_full_rows_bound(self.board@, 0);
        }
        self.score += self.board.compact_rows();
        self.piece = spawn;
        // A new piece that overlaps the board right away ends the game.
        if self.check_collision(&self.piece) {
            self.game_over = true;
        }
    }

    /// Moves the falling piece as the input `dir` asks, if it has room
    /// there. Returns whether the piece has landed instead: the game is on,
    /// the input asks for a move down, and the piece has no room below.
    fn try_move(&mut self, dir: Direction) -> (landed: bool)
        requires
            old(self)@.wf(),
        ensures
            landed == old(self)@.lands_on(dir),
            landed ==> *final(self) == *old(self),
            !landed ==> final(self)@ == old(self)@.input(dir, old(self).piece),
            final(self)@.wf(),
    {
        if self.game_over {
            return false;
        }
        proof {
            lemma_candidate_within_grid(self.board@, self.piece, dir);
        }
        let mut next_piece = self.piece;
        match dir {
            Direction::UP => next_piece.rotation = next_piece.rotation.next_cw(),
            Direction::DOWN => next_piece.pos.offset_blockdrop(0, 1),
            Direction::LEFT => next_piece.pos.offset_blockdrop(-1, 0),
            Direction::RIGHT => next_piece.pos.offset_blockdrop(1, 0),
            _ => (),
        }
        assert(next_piece == self.piece.candidate(dir));
        if self.check_collision(&next_piece) {
            // A piece that cannot turn or move sideways stays where it is.
            dir == Direction::DOWN
        } else {
            self.piece = next_piece;
            false
        }
    }

    /// Handles the input `dir`, with `spawn` as the piece that appears if
    /// the falling piece lands.
    pub fn update_with(&mut self, dir: Direction, spawn: Piece)
        requires
            old(self)@.wf(),
            spawn.is_spawn(),
            old(self).score + HEIGHT <= u32::MAX,
        ensures
            final(self)@ == old(self)@.input(dir, spawn),
            final(self)@.wf(),
            old(self).score <= final(self).score <= old(self).score + HEIGHT,
    {
        proof {
            lemma_input_keeps_walls(self@, dir, spawn);
            lemma_spawn(spawn);
        }
        if self.try_move(dir) {
            self.fallen_down(spawn);
        }
    }

    /// Handles the input `dir`. If the falling piece lands, the piece that
    /// appears in its place is drawn at random.
    pub fn update(&mut self, dir: Direction)
        requires
            old(self)@.wf(),
            old(self).score + HEIGHT <= u32::MAX,
        ensures
            final(self)@ == old(self)@.input(dir, final(self).piece),
            old(self)@.lands_on(dir) ==> final(self).piece.is_spawn(),
            final(self)@.wf(),
            old(self).score <= final(self).score <= old(self).score + HEIGHT,
    {
        if self.try_move(dir) {
            let spawn = Piece::random();
            proof {
                lemma_input_keeps_walls(self@, dir, spawn);
                lemma_spawn(spawn);
            }
            self.fallen_down(spawn);
        }
    }

    /// Lets the falling piece fall by one row, with `spawn` as the piece
    /// that appears if it lands.
    pub fn next_tick_with(&mut self, spawn: Piece)
        requires
            old(self)@.wf(),
            spawn.is_spawn(),
            old(self).score + HEIGHT <= u32::MAX,
        ensures
            final(self)@ == old(self)@.tick(spawn),
            final(self)@.wf(),
            old(self).score <= final(self).score <= old(self).score + HEIGHT,
    {
        self.update_with(Direction::DOWN, spawn);
    }

    /// Lets the falling piece fall by one row. If it lands, the piece that
    /// appears in its place is drawn at random.
    pub fn next_tick(&mut self)
        requires
            old(self)@.wf(),
            old(self).score + HEIGHT <= u32::MAX,
        ensures
            final(self)@ == old(self)@.tick(final(self).piece),
            old(self)@.lands_on(Direction::DOWN) ==> final(self).piece.is_spawn(),
            final(self)@.wf(),
            old(self).score <= final(self).score <= old(self).score + HEIGHT,
    {
        self.update(Direction::DOWN);
    }
}

impl GameT for BlockdropG {
    open spec fn valid(&self) -> bool {
        self@.wf()
    }

    open spec fn ready(&self) -> bool {
        self@.wf() && self.score + HEIGHT <= u32::MAX
    }

    proof fn lemma_ready_is_valid(&self) {
    }

    fn new() -> (game: BlockdropG)
        ensures
            game@ == GameModel::start(game.piece),
            game.piece.is_spawn(),
    {
        BlockdropG::new()
    }

    fn init(&mut self)
        ensures
            final(self)@ == GameModel::start(final(self).piece),
            final(self).piece.is_spawn(),
            final(self).valid(),
    {
        BlockdropG::init(self);
    }

    fn is_ready(&self) -> (ready: bool) {
        self.is_valid() && self.score <= u32::MAX - 34
    }

    fn update(&mut self, dir: Direction)
        ensures
            final(self)@ == old(self)@.input(dir, final(self).piece),
            old(self)@.lands_on(dir) ==> final(self).piece.is_spawn(),
            old(self).score <= final(self).score <= old(self).score + HEIGHT,
    {
        BlockdropG::update(self, dir);
    }

    fn next_tick(&mut self)
        ensures
            final(self)@ == old(self)@.tick(final(self).piece),
            old(self)@.lands_on(Direction::DOWN) ==> final(self).piece.is_spawn(),
            old(self).score <= final(self).score <= old(self).score + HEIGHT,
    {
        BlockdropG::next_tick(self);
    }

    /// The blocks of the falling piece, then those of the board.
    open spec fn drawn_blocks(&self) -> Seq<Block> {
        self.piece.spec_blocks() + board_blocks(self.board@)
    }

    fn blocks(&self) -> (bs: Vec<Block>)
        ensures
            bs@ == self.drawn_blocks(),
    {
        BlockdropG::blocks(self)
    }
}

} // verus!
