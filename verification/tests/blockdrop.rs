use led_games::blockdrop::{
    piece_shape, BlockdropG, ExtendedGrid, ExtendedGridIterator, Piece, EMPTY, FILLED,
    GRID_HEIGHT, GRID_WIDTH, HEIGHT, OFF, WIDTH,
};
use led_games::constants::Colour;
use led_games::game::{Block, Direction, Position};

fn game_with(board: ExtendedGrid, piece: Piece) -> BlockdropG {
    BlockdropG { time: 0, score: 0, board, piece, game_over: false }
}

fn fill_row(board: &mut ExtendedGrid, row: usize) {
    for x in OFF..OFF + WIDTH {
        board.0[x][row] = FILLED;
    }
}

fn is_wall(x: usize, y: usize) -> bool {
    x < OFF || x >= OFF + WIDTH || y >= HEIGHT
}

fn walls_in_place(board: &ExtendedGrid) -> bool {
    (0..GRID_WIDTH).all(|x| (0..GRID_HEIGHT).all(|y| !is_wall(x, y) || board.0[x][y] == FILLED))
}

fn row_of(board: &ExtendedGrid, row: usize) -> Vec<u8> {
    (OFF..OFF + WIDTH).map(|x| board.0[x][row]).collect()
}

#[test]
fn default_board_has_walls_and_a_free_play_area() {
    let board = ExtendedGrid::default();
    for x in 0..GRID_WIDTH {
        for y in 0..GRID_HEIGHT {
            let expected = if is_wall(x, y) { FILLED } else { EMPTY };
            assert_eq!(board.0[x][y], expected, "cell {} {}", x, y);
        }
    }
}

#[test]
fn occupied_holds_for_walls_and_blocks_alike() {
    let mut board = ExtendedGrid::default();
    board.0[5][10] = FILLED;
    assert!(board.occupied(Position { x: 5, y: 10 }));
    assert!(board.occupied(Position { x: 2, y: 10 }));
    assert!(board.occupied(Position { x: 12, y: 0 }));
    assert!(board.occupied(Position { x: 5, y: 34 }));
    assert!(!board.occupied(Position { x: 5, y: 11 }));
    assert!(!board.occupied(Position { x: 3, y: 0 }));
    assert!(!board.occupied(Position { x: 11, y: 33 }));
}

#[test]
fn catalogue_has_the_bar_and_the_l() {
    let (offset, cells) = piece_shape(0, Direction::UP);
    assert_eq!(offset, (0, -1));
    assert_eq!(cells, [[0, 0, 0, 0], [1, 1, 1, 1], [0, 0, 0, 0], [0, 0, 0, 0]]);
    let (offset, cells) = piece_shape(0, Direction::DOWN);
    assert_eq!(offset, (-1, 0));
    assert_eq!(cells, [[0, 1, 0, 0], [0, 1, 0, 0], [0, 1, 0, 0], [0, 1, 0, 0]]);
    assert_eq!(piece_shape(0, Direction::LEFT), piece_shape(0, Direction::UP));
    assert_eq!(piece_shape(0, Direction::RIGHT).1, piece_shape(0, Direction::DOWN).1);
    assert_eq!(piece_shape(0, Direction::RIGHT).0, (0, -1));
    let (offset, cells) = piece_shape(1, Direction::UP);
    assert_eq!(offset, (-1, 0));
    assert_eq!(cells, [[0, 0, 0, 0], [0, 1, 1, 1], [0, 1, 0, 0], [0, 0, 0, 0]]);
    assert_eq!(
        piece_shape(1, Direction::DOWN).1,
        [[0, 0, 0, 0], [0, 1, 1, 0], [0, 0, 1, 0], [0, 0, 1, 0]]
    );
    assert_eq!(
        piece_shape(1, Direction::LEFT).1,
        [[0, 0, 0, 0], [0, 0, 1, 0], [1, 1, 1, 0], [0, 0, 0, 0]]
    );
    assert_eq!(
        piece_shape(1, Direction::RIGHT).1,
        [[0, 1, 0, 0], [0, 1, 0, 0], [0, 1, 1, 0], [0, 0, 0, 0]]
    );
}

#[test]
fn every_piece_has_four_cells() {
    for shape in 0..2 {
        for rotation in [Direction::UP, Direction::DOWN, Direction::LEFT, Direction::RIGHT] {
            let (_, cells) = piece_shape(shape, rotation);
            let count: usize = cells.iter().map(|row| row.iter().filter(|c| **c == 1).count()).sum();
            assert_eq!(count, 4);
        }
    }
}

#[test]
fn spawn_picks_the_rotation_by_its_number() {
    assert_eq!(Piece::spawn(0, 0, 3).rotation, Direction::UP);
    assert_eq!(Piece::spawn(0, 1, 3).rotation, Direction::DOWN);
    assert_eq!(Piece::spawn(1, 2, 4).rotation, Direction::LEFT);
    assert_eq!(Piece::spawn(1, 3, 8).rotation, Direction::RIGHT);
    let piece = Piece::spawn(1, 3, 8);
    assert_eq!(piece.shape, 1);
    assert_eq!(piece.pos, Position { x: 8, y: 0 });
}

#[test]
fn random_pieces_appear_at_the_top_inside_the_play_area() {
    let mut shapes = [false; 2];
    let mut columns = [false; 15];
    let mut rotations = Vec::new();
    for _ in 0..400 {
        let piece = Piece::random();
        assert!(piece.shape < 2);
        assert!(piece.pos.x >= 3 && piece.pos.x < 9);
        assert_eq!(piece.pos.y, 0);
        assert!(matches!(
            piece.rotation,
            Direction::UP | Direction::DOWN | Direction::LEFT | Direction::RIGHT
        ));
        assert!(piece.is_on_grid());
        shapes[piece.shape] = true;
        columns[piece.pos.x as usize] = true;
        if !rotations.contains(&piece.rotation) {
            rotations.push(piece.rotation);
        }
    }
    // With 400 draws each value of each range has been seen.
    assert_eq!(shapes, [true, true]);
    assert_eq!(columns.iter().filter(|seen| **seen).count(), 6);
    assert_eq!(rotations.len(), 4);
}

#[test]
fn piece_blocks_are_the_cells_at_their_place() {
    let piece = Piece { shape: 1, rotation: Direction::UP, pos: Position { x: 4, y: 7 } };
    let blocks = piece.blocks();
    let idle = Block { position: Position { x: 0, y: 0 }, colour: Colour::Yellow };
    for (i, block) in blocks.iter().enumerate() {
        let expected = match i {
            5 => Block { position: Position { x: 5, y: 8 }, colour: Colour::Green },
            6 => Block { position: Position { x: 6, y: 8 }, colour: Colour::Green },
            7 => Block { position: Position { x: 7, y: 8 }, colour: Colour::Green },
            9 => Block { position: Position { x: 5, y: 9 }, colour: Colour::Green },
            _ => idle,
        };
        assert_eq!(*block, expected, "block {}", i);
    }
}

#[test]
fn is_on_grid_tells_pieces_that_stick_out() {
    let inside = Piece { shape: 0, rotation: Direction::UP, pos: Position { x: 11, y: 35 } };
    assert!(inside.is_on_grid());
    let too_far_right = Piece { shape: 0, rotation: Direction::UP, pos: Position { x: 12, y: 0 } };
    assert!(!too_far_right.is_on_grid());
    let too_low = Piece { shape: 0, rotation: Direction::DOWN, pos: Position { x: 3, y: 34 } };
    assert!(!too_low.is_on_grid());
    let no_such_shape = Piece { shape: 2, rotation: Direction::UP, pos: Position { x: 3, y: 0 } };
    assert!(!no_such_shape.is_on_grid());
    let no_such_turn =
        Piece { shape: 0, rotation: Direction::SECOND_UP, pos: Position { x: 3, y: 0 } };
    assert!(!no_such_turn.is_on_grid());
}

#[test]
fn remove_row_lets_the_rows_above_sink() {
    let mut board = ExtendedGrid::default();
    board.0[3][0] = FILLED;
    board.0[4][1] = FILLED;
    board.0[5][2] = FILLED;
    board.0[6][3] = FILLED;
    board.remove_row(2);
    assert_eq!(row_of(&board, 0), vec![0; 9]);
    assert_eq!(row_of(&board, 1), vec![FILLED, 0, 0, 0, 0, 0, 0, 0, 0]);
    assert_eq!(row_of(&board, 2), vec![0, FILLED, 0, 0, 0, 0, 0, 0, 0]);
    assert_eq!(row_of(&board, 3), vec![0, 0, 0, FILLED, 0, 0, 0, 0, 0]);
    assert!(walls_in_place(&board));
}

#[test]
fn remove_row_of_the_top_row_frees_it() {
    let mut board = ExtendedGrid::default();
    fill_row(&mut board, 0);
    board.0[4][1] = FILLED;
    board.remove_row(0);
    assert_eq!(row_of(&board, 0), vec![0; 9]);
    assert_eq!(row_of(&board, 1), vec![0, FILLED, 0, 0, 0, 0, 0, 0, 0]);
}

#[test]
fn compact_rows_of_a_board_without_full_rows_changes_nothing() {
    let mut board = ExtendedGrid::default();
    board.0[3][33] = FILLED;
    board.0[7][20] = FILLED;
    let before = board.0;
    assert_eq!(board.compact_rows(), 0);
    assert_eq!(board.0, before);
}

#[test]
fn compact_rows_removes_scattered_full_rows() {
    let mut board = ExtendedGrid::default();
    // rows 33, 31 and 28 are full; rows 32, 30, 29 and 27 hold one block each
    fill_row(&mut board, 33);
    board.0[3][32] = FILLED;
    fill_row(&mut board, 31);
    board.0[4][30] = FILLED;
    board.0[5][29] = FILLED;
    fill_row(&mut board, 28);
    board.0[6][27] = FILLED;
    assert_eq!(board.compact_rows(), 3);
    let mut expected = ExtendedGrid::default();
    expected.0[3][33] = FILLED; // row 32 sank by one
    expected.0[4][32] = FILLED; // row 30 sank by two
    expected.0[5][31] = FILLED; // row 29 sank by two
    expected.0[6][30] = FILLED; // row 27 sank by three
    assert_eq!(board.0, expected.0);
}

#[test]
fn compact_rows_removes_full_rows_that_lie_together() {
    let mut board = ExtendedGrid::default();
    fill_row(&mut board, 33);
    fill_row(&mut board, 32);
    fill_row(&mut board, 31);
    fill_row(&mut board, 30);
    board.0[8][29] = FILLED;
    assert_eq!(board.compact_rows(), 4);
    let mut expected = ExtendedGrid::default();
    expected.0[8][33] = FILLED;
    assert_eq!(board.0, expected.0);
}

#[test]
fn compact_rows_of_a_full_board_frees_every_row() {
    let mut board = ExtendedGrid::default();
    for row in 0..HEIGHT {
        fill_row(&mut board, row);
    }
    assert_eq!(board.compact_rows(), 34);
    assert_eq!(board.0, ExtendedGrid::default().0);
}

#[test]
fn compact_rows_removes_a_full_top_row() {
    let mut board = ExtendedGrid::default();
    fill_row(&mut board, 0);
    board.0[3][1] = FILLED;
    assert_eq!(board.compact_rows(), 1);
    let mut expected = ExtendedGrid::default();
    expected.0[3][1] = FILLED;
    assert_eq!(board.0, expected.0);
}

#[test]
fn compact_rows_leaves_no_full_row_and_keeps_the_walls() {
    let mut board = ExtendedGrid::default();
    for row in (0..HEIGHT).step_by(3) {
        fill_row(&mut board, row);
    }
    for row in 0..HEIGHT {
        board.0[3 + row % 9][row] = FILLED;
    }
    assert_eq!(board.compact_rows(), 12);
    for row in 0..HEIGHT {
        assert!(!board.is_row_full(row));
    }
    assert!(walls_in_place(&board));
}

#[test]
fn is_row_full_looks_at_the_visible_cells_only() {
    let mut board = ExtendedGrid::default();
    assert!(!board.is_row_full(5));
    fill_row(&mut board, 5);
    assert!(board.is_row_full(5));
    board.0[11][5] = EMPTY;
    assert!(!board.is_row_full(5));
}

#[test]
fn new_game_starts_with_a_free_board() {
    let game = BlockdropG::new();
    assert_eq!(game.time, 0);
    assert_eq!(game.score, 0);
    assert!(!game.game_over);
    assert_eq!(game.board.0, ExtendedGrid::default().0);
    assert!(game.is_valid());
    assert!(!game.check_collision(&game.piece));
}

#[test]
fn init_starts_the_game_afresh() {
    let mut board = ExtendedGrid::default();
    board.0[5][30] = FILLED;
    let mut game = game_with(board, Piece::spawn(0, 0, 3));
    game.score = 17;
    game.time = 3;
    game.game_over = true;
    game.init();
    assert_eq!(game.time, 0);
    assert_eq!(game.score, 0);
    assert!(!game.game_over);
    assert_eq!(game.board.0, ExtendedGrid::default().0);
    assert!(game.is_valid());
}

#[test]
fn straight_piece_lock() {
    let mut game = game_with(ExtendedGrid::default(), Piece::spawn(0, 0, 3));
    let next = Piece::spawn(1, 0, 5);
    let mut ticks = 0;
    while game.piece != next {
        assert!(game.is_valid());
        game.next_tick_with(next);
        ticks += 1;
        assert!(ticks <= 40);
    }
    // 32 rows to fall, and one more tick to land
    assert_eq!(ticks, 33);
    let mut expected = ExtendedGrid::default();
    for x in 3..7 {
        expected.0[x][33] = FILLED;
    }
    assert_eq!(game.board.0, expected.0);
    assert_eq!(game.score, 0);
    assert!(!game.game_over);
    assert_eq!(game.piece, next);
}

#[test]
fn single_row_clear() {
    let mut board = ExtendedGrid::default();
    for x in 7..12 {
        board.0[x][33] = FILLED;
    }
    board.0[8][32] = FILLED;
    board.0[9][31] = FILLED;
    board.0[10][12] = FILLED;
    let piece = Piece { shape: 0, rotation: Direction::UP, pos: Position { x: 3, y: 32 } };
    let mut game = game_with(board, piece);
    assert!(game.is_valid());
    let next = Piece::spawn(0, 1, 4);
    game.next_tick_with(next);
    assert_eq!(game.score, 1);
    assert_eq!(game.piece, next);
    assert!(!game.game_over);
    let mut expected = ExtendedGrid::default();
    expected.0[8][33] = FILLED;
    expected.0[9][32] = FILLED;
    expected.0[10][13] = FILLED;
    assert_eq!(game.board.0, expected.0);
}

#[test]
fn single_row_clear_by_compact_rows() {
    let mut board = ExtendedGrid::default();
    for x in 7..12 {
        board.0[x][33] = FILLED;
    }
    board.0[8][32] = FILLED;
    let piece = Piece { shape: 0, rotation: Direction::UP, pos: Position { x: 3, y: 32 } };
    let mut game = game_with(board, piece);
    game.save();
    assert!(game.board.is_row_full(33));
    assert_eq!(game.board.compact_rows(), 1);
    let mut expected = ExtendedGrid::default();
    expected.0[8][33] = FILLED;
    assert_eq!(game.board.0, expected.0);
}

#[test]
fn rotate_rejection_at_wall() {
    // an upright bar in the leftmost visible column
    let piece = Piece { shape: 0, rotation: Direction::DOWN, pos: Position { x: 2, y: 5 } };
    let mut game = game_with(ExtendedGrid::default(), piece);
    assert!(game.is_valid());
    let next = Piece::spawn(1, 0, 5);
    game.update_with(Direction::UP, next);
    assert_eq!(game.piece, piece);
    assert_eq!(game.board.0, ExtendedGrid::default().0);
    assert_eq!(game.score, 0);
    assert!(!game.game_over);
}

#[test]
fn sideways_move_into_the_wall_is_dropped() {
    let piece = Piece { shape: 0, rotation: Direction::DOWN, pos: Position { x: 2, y: 5 } };
    let mut game = game_with(ExtendedGrid::default(), piece);
    game.update_with(Direction::LEFT, Piece::spawn(1, 0, 5));
    assert_eq!(game.piece, piece);
    assert_eq!(game.board.0, ExtendedGrid::default().0);
    let piece = Piece { shape: 0, rotation: Direction::UP, pos: Position { x: 8, y: 5 } };
    let mut game = game_with(ExtendedGrid::default(), piece);
    game.update_with(Direction::RIGHT, Piece::spawn(1, 0, 5));
    assert_eq!(game.piece, piece);
    assert_eq!(game.board.0, ExtendedGrid::default().0);
}

#[test]
fn inputs_move_and_turn_a_piece_that_has_room() {
    let piece = Piece { shape: 1, rotation: Direction::UP, pos: Position { x: 5, y: 5 } };
    let next = Piece::spawn(0, 0, 3);
    let mut game = game_with(ExtendedGrid::default(), piece);
    game.update_with(Direction::LEFT, next);
    assert_eq!(game.piece.pos, Position { x: 4, y: 5 });
    game.update_with(Direction::RIGHT, next);
    game.update_with(Direction::RIGHT, next);
    assert_eq!(game.piece.pos, Position { x: 6, y: 5 });
    game.update_with(Direction::DOWN, next);
    assert_eq!(game.piece.pos, Position { x: 6, y: 6 });
    game.update_with(Direction::UP, next);
    assert_eq!(game.piece.rotation, Direction::RIGHT);
    assert_eq!(game.piece.pos, Position { x: 6, y: 6 });
    game.update_with(Direction::SECOND_LEFT, next);
    assert_eq!(game.piece.pos, Position { x: 6, y: 6 });
    assert_eq!(game.piece.shape, 1);
    assert_eq!(game.board.0, ExtendedGrid::default().0);
    assert_eq!(game.score, 0);
}

#[test]
fn move_down_on_the_floor_lands_the_piece() {
    let piece = Piece { shape: 0, rotation: Direction::DOWN, pos: Position { x: 4, y: 30 } };
    let next = Piece::spawn(1, 2, 6);
    let mut game = game_with(ExtendedGrid::default(), piece);
    game.update_with(Direction::DOWN, next);
    assert_eq!(game.piece, next);
    let mut expected = ExtendedGrid::default();
    for y in 30..34 {
        expected.0[5][y] = FILLED;
    }
    assert_eq!(game.board.0, expected.0);
}

#[test]
fn immediate_game_over() {
    let mut board = ExtendedGrid::default();
    for x in 3..10 {
        for y in 0..HEIGHT {
            board.0[x][y] = FILLED;
        }
    }
    // an upright bar in column 10, at the top
    let piece = Piece { shape: 0, rotation: Direction::DOWN, pos: Position { x: 9, y: 0 } };
    let mut game = game_with(board, piece);
    assert!(game.is_valid());
    let next = Piece::spawn(0, 0, 3);
    game.fallen_down(next);
    assert!(game.game_over);
    assert_eq!(game.score, 0);
    assert_eq!(game.piece, next);
    let board = game.board.0;
    game.next_tick_with(Piece::spawn(1, 1, 4));
    assert!(game.game_over);
    assert_eq!(game.score, 0);
    assert_eq!(game.piece, next);
    assert_eq!(game.board.0, board);
    game.update_with(Direction::LEFT, Piece::spawn(1, 1, 4));
    game.update_with(Direction::UP, Piece::spawn(1, 1, 4));
    game.update(Direction::DOWN);
    game.next_tick();
    assert_eq!(game.score, 0);
    assert_eq!(game.piece, next);
    assert_eq!(game.board.0, board);
    assert!(game.is_valid());
}

#[test]
fn score_grows_by_the_rows_removed_and_never_falls() {
    let mut board = ExtendedGrid::default();
    for y in 30..34 {
        fill_row(&mut board, y);
        board.0[5][y] = EMPTY;
    }
    let piece = Piece { shape: 0, rotation: Direction::DOWN, pos: Position { x: 4, y: 0 } };
    let mut game = game_with(board, piece);
    game.score = 10;
    let next = Piece::spawn(1, 0, 3);
    let mut last = game.score;
    let mut ticks = 0;
    while game.piece != next {
        game.next_tick_with(next);
        assert!(game.score >= last);
        last = game.score;
        ticks += 1;
        assert!(ticks <= 40);
    }
    assert_eq!(game.score, 14);
    assert_eq!(game.board.0, ExtendedGrid::default().0);
    for dir in [Direction::LEFT, Direction::UP, Direction::DOWN, Direction::RIGHT] {
        game.update_with(dir, next);
        assert_eq!(game.score, 14);
    }
}

#[test]
fn walls_stay_in_place_through_a_game() {
    let mut game = BlockdropG::new();
    let keys = [Direction::LEFT, Direction::UP, Direction::RIGHT, Direction::DOWN, Direction::UP];
    let mut score = 0;
    for step in 0..3000 {
        assert!(game.is_valid());
        if step % 3 == 0 {
            game.next_tick();
        } else {
            game.update(keys[step % keys.len()]);
        }
        assert!(walls_in_place(&game.board));
        assert!(game.score >= score);
        score = game.score;
    }
    assert!(game.is_valid());
}

#[test]
fn check_collision_sees_walls_and_blocks() {
    let mut board = ExtendedGrid::default();
    board.0[6][10] = FILLED;
    let game = game_with(board, Piece::spawn(0, 0, 3));
    let free = Piece { shape: 0, rotation: Direction::UP, pos: Position { x: 3, y: 4 } };
    assert!(!game.check_collision(&free));
    let on_block = Piece { shape: 0, rotation: Direction::UP, pos: Position { x: 3, y: 9 } };
    assert!(game.check_collision(&on_block));
    let in_left_wall = Piece { shape: 0, rotation: Direction::UP, pos: Position { x: 2, y: 4 } };
    assert!(game.check_collision(&in_left_wall));
    let in_right_wall = Piece { shape: 0, rotation: Direction::UP, pos: Position { x: 9, y: 4 } };
    assert!(game.check_collision(&in_right_wall));
    let in_floor = Piece { shape: 0, rotation: Direction::UP, pos: Position { x: 3, y: 33 } };
    assert!(game.check_collision(&in_floor));
    // the free corner of the cell square may lie in the wall
    let beside_wall = Piece { shape: 0, rotation: Direction::DOWN, pos: Position { x: 2, y: 4 } };
    assert!(!game.check_collision(&beside_wall));
}

#[test]
fn is_valid_tells_a_broken_wall_and_a_stuck_piece() {
    let mut game = game_with(ExtendedGrid::default(), Piece::spawn(0, 0, 3));
    assert!(game.is_valid());
    game.board.0[0][5] = EMPTY;
    assert!(!game.is_valid());
    game.board.0[0][5] = FILLED;
    game.board.0[14][36] = 1;
    assert!(!game.is_valid());
    game.board.0[14][36] = FILLED;
    game.board.0[4][1] = FILLED;
    assert!(!game.is_valid());
    game.game_over = true;
    assert!(game.is_valid());
}

#[test]
fn game_blocks_are_those_of_the_piece_and_then_of_the_board() {
    let mut board = ExtendedGrid::default();
    board.0[4][33] = FILLED;
    let piece = Piece { shape: 0, rotation: Direction::UP, pos: Position { x: 3, y: 0 } };
    let game = game_with(board, piece);
    let blocks = game.blocks();
    assert_eq!(blocks.len(), 16 + 15 * 37);
    assert_eq!(blocks[..16], piece.blocks()[..]);
    assert_eq!(blocks[16..], game.board.blocks()[..]);
    let green: Vec<Position> = blocks[..16]
        .iter()
        .filter(|b| b.colour == Colour::Green)
        .map(|b| b.position)
        .collect();
    assert_eq!(
        green,
        vec![
            Position { x: 3, y: 1 },
            Position { x: 4, y: 1 },
            Position { x: 5, y: 1 },
            Position { x: 6, y: 1 }
        ]
    );
}

#[test]
fn board_blocks_show_filled_cells_right_of_the_left_wall() {
    let mut board = ExtendedGrid::default();
    board.0[4][33] = FILLED;
    let blocks = board.blocks();
    for x in 0..GRID_WIDTH {
        for y in 0..GRID_HEIGHT {
            let block = blocks[x + y * GRID_WIDTH];
            if y < HEIGHT {
                assert_eq!(block.position, Position { x: x as u8, y: y as u8 });
                let green = x >= 12 || (x == 4 && y == 33);
                let expected = if green { Colour::Green } else { Colour::Yellow };
                assert_eq!(block.colour, expected, "cell {} {}", x, y);
            } else {
                assert_eq!(block.position, Position { x: 0, y: 0 });
                assert_eq!(block.colour, Colour::Yellow);
            }
        }
    }
}

#[test]
fn direction_from_index() {
    let game = game_with(ExtendedGrid::default(), Piece::spawn(0, 0, 3));
    assert_eq!(game._get_direction_from_index(0), Direction::RIGHT);
    assert_eq!(game._get_direction_from_index(1), Direction::UP);
    assert_eq!(game._get_direction_from_index(2), Direction::LEFT);
    assert_eq!(game._get_direction_from_index(3), Direction::DOWN);
}

#[test]
fn grid_scan_stops_at_filled_cells_right_of_column_three() {
    let mut board = ExtendedGrid::default();
    board.0[3][2] = FILLED;
    board.0[5][7] = FILLED;
    board.0[6][1] = FILLED;
    let mut scan = ExtendedGridIterator::new(&board);
    let green = |x, y| Some(Block { position: Position { x, y }, colour: Colour::Green });
    assert_eq!(scan.next(), green(5, 8));
    // the scan goes on from row 8, in every column
    assert_eq!(scan.next(), None);
    assert_eq!(scan.next(), None);
}

#[test]
fn grid_scan_of_a_free_board_finds_nothing() {
    let board = ExtendedGrid::default();
    let mut scan = ExtendedGridIterator::new(&board);
    assert_eq!(scan.next(), None);
}
