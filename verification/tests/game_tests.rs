use snake_game::game::Game;
use snake_game::game::FOOD_START_X;
use snake_game::game::FOOD_START_Y;
use snake_game::game::MOVING_PERIOD_MS;
use snake_game::game::RESTART_TIME_MS;
use snake_game::snake::Direction;

/// Steps the snake along the given directions by direct calls of the central
/// mutator, as the event loop would after key presses.
fn steer(g: &mut Game, dirs: &[Direction]) {
    for d in dirs {
        g.update_snake(Some(*d));
    }
}

#[test]
fn new_game_starts_with_fixed_layout() {
    let g = Game::new(10, 10);
    assert!(!g.game_over());
    assert!(g.food_exists());
    assert_eq!(g.food_position(), (FOOD_START_X, FOOD_START_Y));
    assert_eq!(g.waiting_time(), 0);
    assert_eq!(g.width(), 10);
    assert_eq!(g.height(), 10);
    assert_eq!(g.snake().length(), 2);
    assert_eq!(g.snake().segment(0), (2, 2));
    assert_eq!(g.snake().segment(1), (1, 2));
    assert_eq!(g.snake().head_direction(), Direction::Right);
}

#[test]
fn tick_past_period_moves_snake_one_cell() {
    // board 10 by 10, snake [(2,2),(1,2)] heading Right: one tick past the
    // movement period moves the head to (3,2), the tail to (2,2), no growth
    let mut g = Game::new(10, 10);
    g.update(MOVING_PERIOD_MS + 1);
    assert!(!g.game_over());
    assert_eq!(g.snake().length(), 2);
    assert_eq!(g.snake().segment(0), (3, 2));
    assert_eq!(g.snake().segment(1), (2, 2));
    assert_eq!(g.waiting_time(), 0);
}

#[test]
fn tick_at_or_below_period_only_accumulates() {
    let mut g = Game::new(10, 10);
    g.update(50);
    assert_eq!(g.snake().segment(0), (2, 2));
    assert_eq!(g.waiting_time(), 50);
    g.update(50);
    // exactly the period: strictly greater is required, so still no move
    assert_eq!(g.snake().segment(0), (2, 2));
    assert_eq!(g.waiting_time(), 100);
    g.update(1);
    assert_eq!(g.snake().segment(0), (3, 2));
    assert_eq!(g.waiting_time(), 0);
}

#[test]
fn eating_food_grows_on_next_step() {
    // drive the head onto the food at (6,4): the food is consumed at once,
    // and the following step yields length 3 instead of 2
    let mut g = Game::new(10, 10);
    steer(&mut g, &[Direction::Right; 4]);
    assert_eq!(g.snake().segment(0), (6, 2));
    assert!(g.food_exists());
    steer(&mut g, &[Direction::Down, Direction::Down]);
    assert_eq!(g.snake().segment(0), (6, 4));
    assert!(!g.food_exists());
    assert_eq!(g.snake().length(), 2);
    g.update_snake(Some(Direction::Down));
    assert_eq!(g.snake().length(), 3);
    assert!(!g.food_exists());
    assert!(!g.game_over());
}

#[test]
fn food_respawns_inside_interior_off_the_body() {
    let mut g = Game::new(10, 10);
    steer(&mut g, &[Direction::Right; 4]);
    steer(&mut g, &[Direction::Down, Direction::Down]);
    assert!(!g.food_exists());
    // a small tick spawns food again without moving the snake
    g.update(1);
    assert!(g.food_exists());
    let (fx, fy) = g.food_position();
    assert!(1 <= fx && fx <= 8);
    assert!(1 <= fy && fy <= 8);
    // the snake grows on its next step, so every segment counts here
    for i in 0..g.snake().length() {
        assert_ne!(g.food_position(), g.snake().segment(i));
    }
}

#[test]
fn reversal_key_is_ignored() {
    let mut g = Game::new(10, 10);
    g.key_pressed(Some(Direction::Left));
    assert_eq!(g.snake().segment(0), (2, 2));
    assert_eq!(g.snake().segment(1), (1, 2));
    assert_eq!(g.snake().head_direction(), Direction::Right);
    assert!(!g.game_over());
}

#[test]
fn non_directional_key_is_ignored() {
    let mut g = Game::new(10, 10);
    g.key_pressed(None);
    assert_eq!(g.snake().segment(0), (2, 2));
    assert_eq!(g.snake().head_direction(), Direction::Right);
}

#[test]
fn directional_key_steps_at_once() {
    let mut g = Game::new(10, 10);
    g.key_pressed(Some(Direction::Down));
    assert_eq!(g.snake().segment(0), (2, 3));
    assert_eq!(g.snake().segment(1), (2, 2));
    assert_eq!(g.snake().head_direction(), Direction::Down);
}

#[test]
fn border_step_ends_game_and_keeps_segments() {
    // heading Right from (2,2) on a 10-wide board: (8,2) is the last interior
    // cell, the step onto x = 9 hits the border
    let mut g = Game::new(10, 10);
    steer(&mut g, &[Direction::Right; 6]);
    assert_eq!(g.snake().segment(0), (8, 2));
    assert!(!g.game_over());
    g.update_snake(Some(Direction::Right));
    assert!(g.game_over());
    assert_eq!(g.snake().length(), 2);
    assert_eq!(g.snake().segment(0), (8, 2));
    assert_eq!(g.snake().segment(1), (7, 2));
}

#[test]
fn stepping_into_vacating_tail_is_not_lethal() {
    // the tail cell is vacated by the very move that enters it, so with no
    // growth pending the step is legal
    let g = Game::new(10, 10);
    assert!(g.is_snake_alive(Some(Direction::Right)));
    // head (2,2), tail (1,2): a Left step enters (1,2), the cell the tail
    // vacates on that same move, and so counts as alive
    assert!(g.is_snake_alive(Some(Direction::Left)));
}

#[test]
fn turning_into_own_neck_is_lethal() {
    // length 3 snake: stepping onto the second segment (the neck is kept
    // after the move) must end the game with segments unchanged
    let mut g = Game::new(10, 10);
    steer(&mut g, &[Direction::Right; 4]);
    steer(&mut g, &[Direction::Down, Direction::Down]);
    g.update_snake(Some(Direction::Down));
    assert_eq!(g.snake().length(), 3);
    assert_eq!(g.snake().segment(0), (6, 5));
    assert_eq!(g.snake().segment(1), (6, 4));
    assert_eq!(g.snake().segment(2), (6, 3));
    // Up is the exact reverse of Down, so the central mutator itself is
    // exercised here, as with a caller that skips the key filter
    g.update_snake(Some(Direction::Up));
    assert!(g.game_over());
    assert_eq!(g.snake().length(), 3);
    assert_eq!(g.snake().segment(0), (6, 5));
    assert_eq!(g.snake().segment(1), (6, 4));
    assert_eq!(g.snake().segment(2), (6, 3));
}

#[test]
fn keys_are_ignored_while_game_over() {
    let mut g = Game::new(10, 10);
    steer(&mut g, &[Direction::Right; 7]);
    assert!(g.game_over());
    g.key_pressed(Some(Direction::Up));
    assert!(g.game_over());
    assert_eq!(g.snake().segment(0), (8, 2));
}

#[test]
fn restart_after_delay_resets_to_start_state() {
    let mut g = Game::new(10, 10);
    steer(&mut g, &[Direction::Right; 7]);
    assert!(g.game_over());
    // below the restart delay nothing resets
    g.update(RESTART_TIME_MS);
    assert!(g.game_over());
    assert_eq!(g.waiting_time(), RESTART_TIME_MS);
    // one more millisecond exceeds it
    g.update(1);
    assert!(!g.game_over());
    assert_eq!(g.snake().length(), 2);
    assert_eq!(g.snake().segment(0), (2, 2));
    assert_eq!(g.snake().segment(1), (1, 2));
    assert_eq!(g.snake().head_direction(), Direction::Right);
    assert!(g.food_exists());
    assert_eq!(g.food_position(), (FOOD_START_X, FOOD_START_Y));
    assert_eq!(g.waiting_time(), 0);
    assert_eq!(g.width(), 10);
    assert_eq!(g.height(), 10);
}

#[test]
fn no_movement_while_game_over() {
    let mut g = Game::new(10, 10);
    steer(&mut g, &[Direction::Right; 7]);
    assert!(g.game_over());
    g.update(MOVING_PERIOD_MS + 1);
    assert!(g.game_over());
    assert_eq!(g.snake().segment(0), (8, 2));
}

#[test]
fn segments_stay_in_bounds_and_distinct() {
    // a longer random-free walk: bounds and pairwise distinctness hold in
    // every reachable state
    let mut g = Game::new(10, 10);
    let walk = [
        Direction::Right,
        Direction::Right,
        Direction::Down,
        Direction::Down,
        Direction::Right,
        Direction::Right,
        Direction::Down,
        Direction::Left,
        Direction::Left,
        Direction::Up,
    ];
    for d in walk {
        g.update_snake(Some(d));
        assert!(!g.game_over());
        let n = g.snake().length();
        for i in 0..n {
            let (x, y) = g.snake().segment(i);
            assert!(1 <= x && x <= 8);
            assert!(1 <= y && y <= 8);
            for j in 0..i {
                assert_ne!(g.snake().segment(j), g.snake().segment(i));
            }
        }
        if g.food_exists() {
            let (fx, fy) = g.food_position();
            assert!(1 <= fx && fx <= 8);
            assert!(1 <= fy && fy <= 8);
        }
    }
}

#[test]
fn smallest_board_accepts_start_layout() {
    let mut g = Game::new(8, 6);
    assert_eq!(g.food_position(), (6, 4));
    g.update(MOVING_PERIOD_MS + 1);
    assert!(!g.game_over());
    assert_eq!(g.snake().segment(0), (3, 2));
}
