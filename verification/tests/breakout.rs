use led_games::breakout::{BreakoutG, Grid, BRICK, WALL_HEIGHT};
use led_games::constants::Colour;
use led_games::game::{Block, Direction, Position};

fn started() -> BreakoutG {
    let mut game = BreakoutG::new();
    game.init();
    game
}

fn holes(game: &BreakoutG) -> Vec<(usize, usize)> {
    let mut found = Vec::new();
    for x in 0..9 {
        for y in 0..WALL_HEIGHT {
            if game.board.0[x][y] != BRICK {
                found.push((x, y));
            }
        }
    }
    found
}

#[test]
fn new_game_has_no_bricks() {
    let game = BreakoutG::new();
    assert_eq!(game.paddle_pos, 0);
    assert_eq!(game.ball_pos, Position { x: 6, y: 24 });
    assert_eq!(game.ball_v, (0, 1));
    assert_eq!(game.board.0, [[0u8; 34]; 9]);
    assert_eq!(game.time, 0);
    assert_eq!(game.score, 0);
    assert!(!game.game_over);
    assert!(game.is_valid());
}

#[test]
fn init_builds_the_wall_and_keeps_the_paddle() {
    let mut game = BreakoutG::new();
    game.update(Direction::RIGHT);
    game.score = 4;
    game.game_over = true;
    game.ball_pos = Position { x: 1, y: 1 };
    game.init();
    assert_eq!(game.paddle_pos, 1);
    assert_eq!(game.ball_pos, Position { x: 6, y: 24 });
    assert_eq!(game.ball_v, (0, 1));
    assert_eq!(game.score, 0);
    assert!(!game.game_over);
    for x in 0..9 {
        for y in 0..34 {
            assert_eq!(game.board.0[x][y], if y < 15 { BRICK } else { 0 });
        }
    }
}

#[test]
fn update_moves_the_paddle_and_stops_at_the_ends() {
    let mut game = started();
    game.update(Direction::LEFT);
    assert_eq!(game.paddle_pos, 0);
    for _ in 0..6 {
        game.update(Direction::RIGHT);
    }
    assert_eq!(game.paddle_pos, 4);
    game.update(Direction::UP);
    game.update(Direction::SECOND_LEFT);
    assert_eq!(game.paddle_pos, 4);
    game.update(Direction::LEFT);
    assert_eq!(game.paddle_pos, 3);
    game.game_over = true;
    game.update(Direction::LEFT);
    assert_eq!(game.paddle_pos, 3);
}

#[test]
fn a_ball_beside_the_paddle_ends_the_game() {
    let mut game = started();
    for _ in 0..9 {
        game.next_tick();
    }
    assert_eq!(game.ball_pos, Position { x: 6, y: 33 });
    assert!(!game.game_over);
    game.next_tick();
    assert!(game.game_over);
    assert_eq!(game.ball_pos, Position { x: 6, y: 33 });
    let board = game.board.0;
    game.next_tick();
    game.update(Direction::RIGHT);
    assert!(game.game_over);
    assert_eq!(game.ball_pos, Position { x: 6, y: 33 });
    assert_eq!(game.paddle_pos, 0);
    assert_eq!(game.score, 0);
    assert_eq!(game.board.0, board);
}

#[test]
fn the_paddle_sends_the_ball_into_the_wall() {
    let mut game = started();
    for _ in 0..3 {
        game.update(Direction::RIGHT);
    }
    let mut seen = Vec::new();
    for _ in 0..140 {
        assert!(game.is_valid());
        game.next_tick();
        seen.push((game.ball_pos.x, game.ball_pos.y, game.ball_v, game.score));
    }
    assert_eq!(seen[7], (6, 32, (0, 1), 0));
    // one right of the middle of the paddle, a straight ball leaves to the right
    assert_eq!(seen[8], (7, 31, (1, -1), 0));
    assert_eq!(seen[9], (8, 30, (1, -1), 0));
    assert_eq!(seen[24], (7, 15, (1, -1), 0));
    // the brick above the ball is removed, and the ball turns back down
    assert_eq!(seen[25], (8, 16, (1, 1), 1));
    assert_eq!(seen[26], (7, 17, (-1, 1), 1));
    assert_eq!(seen[33], (0, 24, (-1, 1), 1));
    assert_eq!(seen[34], (1, 25, (1, 1), 1));
    assert_eq!(seen[139], (1, 24, (1, 1), 5));
    assert!(!game.game_over);
    assert_eq!(holes(&game), vec![(6, 13), (6, 14), (7, 13), (7, 14), (8, 14)]);
}

#[test]
fn a_paddle_that_follows_the_ball_keeps_the_game_going() {
    let mut game = started();
    let mut score = 0;
    for _ in 0..400 {
        let x = game.ball_pos.x as u32;
        if x < game.paddle_pos + 2 {
            game.update(Direction::LEFT);
        } else if x > game.paddle_pos + 2 {
            game.update(Direction::RIGHT);
        }
        assert!(game.is_valid());
        game.next_tick();
        assert!(game.score >= score);
        score = game.score;
    }
    assert!(!game.game_over);
    assert_eq!(game.ball_pos, Position { x: 6, y: 18 });
    assert_eq!(game.ball_v, (0, -1));
    assert_eq!(game.paddle_pos, 4);
    assert_eq!(game.score, 9);
    assert_eq!(holes(&game), (6..15).map(|y| (6, y)).collect::<Vec<_>>());
}

#[test]
fn hit_field_removes_the_bricks_that_the_ball_meets() {
    let mut game = started();
    game.ball_pos = Position { x: 3, y: 15 };
    game.ball_v = (-1, -1);
    game.board.0[2][15] = BRICK;
    assert_eq!(game.hit_field(), vec![Direction::LEFT, Direction::UP]);
    assert_eq!(game.score, 2);
    assert_eq!(game.board.0[2][15], 0);
    assert_eq!(game.board.0[3][14], 0);
    assert_eq!(game.board.0[2][14], BRICK);
    assert_eq!(game.ball_v, (-1, -1));
}

#[test]
fn hit_field_meets_a_brick_at_a_corner_only_when_no_other_is_met() {
    let mut game = BreakoutG::new();
    game.ball_pos = Position { x: 3, y: 15 };
    game.ball_v = (1, -1);
    game.board.0[4][14] = BRICK;
    game.board.0[2][14] = BRICK;
    assert_eq!(game.hit_field(), vec![Direction::RIGHT, Direction::UP]);
    assert_eq!(game.score, 1);
    assert_eq!(game.board.0[4][14], 0);
    assert_eq!(game.board.0[2][14], BRICK);
    game.ball_v = (-1, -1);
    assert_eq!(game.hit_field(), vec![Direction::LEFT, Direction::UP]);
    assert_eq!(game.score, 2);
    assert_eq!(game.board.0[2][14], 0);
    assert_eq!(game.hit_field(), Vec::<Direction>::new());
    assert_eq!(game.score, 2);
    // a brick below is met on the way down only
    game.board.0[3][16] = BRICK;
    assert_eq!(game.hit_field(), Vec::<Direction>::new());
    game.ball_v = (0, 1);
    assert_eq!(game.hit_field(), vec![Direction::DOWN]);
    assert_eq!(game.score, 3);
}

#[test]
fn hit_field_at_the_edge_of_the_board_looks_at_no_cell_outside() {
    let mut game = started();
    game.ball_pos = Position { x: 0, y: 0 };
    game.ball_v = (-1, -1);
    assert_eq!(game.hit_field(), Vec::<Direction>::new());
    game.ball_pos = Position { x: 8, y: 33 };
    game.ball_v = (1, 1);
    assert_eq!(game.hit_field(), Vec::<Direction>::new());
    assert_eq!(game.score, 0);
}

#[test]
fn drawing_blocks() {
    let mut game = started();
    game.update(Direction::RIGHT);
    game.board.0[4][2] = 0;
    assert_eq!(
        game.ball(),
        Some(Block { position: Position { x: 6, y: 24 }, colour: Colour::Green })
    );
    let paddle = game.paddle_blocks();
    assert_eq!(paddle.len(), 5);
    for i in 0..5 {
        let expected = Block { position: Position { x: 1 + i as u8, y: 33 }, colour: Colour::Green };
        assert_eq!(paddle[i], expected);
    }
    let wall = game.board_blocks();
    assert_eq!(wall.len(), 135);
    for x in 0..9 {
        for y in 0..15 {
            let colour = if (x, y) == (4, 2) { Colour::Yellow } else { Colour::Green };
            let expected = Block { position: Position { x: x as u8, y: y as u8 }, colour };
            assert_eq!(wall[x + y * 9], expected);
        }
    }
}

#[test]
fn default_grid_is_free() {
    assert_eq!(Grid::default().0, [[0u8; 34]; 9]);
}
