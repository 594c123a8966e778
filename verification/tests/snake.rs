use gg_tracer::snake_game::constant::{GRID_CELL_SIZE, GRID_SIZE, MILLIS_PER_TILES, SCREEN_SIZE};
use gg_tracer::snake_game::direction::Direction;
use gg_tracer::snake_game::food::Food;
use gg_tracer::snake_game::grid::GridPosition;
use gg_tracer::snake_game::modulo::ModuloSigned;
use gg_tracer::snake_game::segment::{Pos, Rect, Segment};
use gg_tracer::snake_game::snake::{Ate, Snake};
use gg_tracer::snake_game::GameState;
use gg_tracer::Keycode;
use std::collections::VecDeque;

fn cell(x: i16, y: i16) -> GridPosition {
    GridPosition::new(x, y)
}

fn body_of(snake: &Snake) -> Vec<(i16, i16)> {
    snake.body.iter().map(|s| (s.pos.x, s.pos.y)).collect()
}

#[test]
fn modulo_follows_the_sign_of_the_divisor() {
    assert_eq!(7i16.modulo(20), 7);
    assert_eq!(20i16.modulo(20), 0);
    assert_eq!(27i16.modulo(20), 7);
    assert_eq!((-1i16).modulo(20), 19);
    assert_eq!((-20i16).modulo(20), 0);
    assert_eq!((-21i16).modulo(20), 19);
    assert_eq!(5i16.modulo(-3), -1);
    assert_eq!((-5i16).modulo(-3), -2);
    assert_eq!(6i16.modulo(-3), 0);
    assert_eq!(i16::MIN.modulo(-1), 0);
    assert_eq!(i16::MIN.modulo(i16::MAX), i16::MAX - 1);
    assert_eq!(i16::MAX.modulo(i16::MIN), -1);
    assert_eq!((-1i32).modulo(30), 29);
    assert_eq!(31i32.modulo(30), 1);
    assert_eq!(5i32.modulo(-3), -1);
    assert_eq!((-5i32).modulo(-3), -2);
    assert_eq!(i32::MIN.modulo(7), 5);
    assert_eq!(i32::MIN.modulo(20), 12);
    assert_eq!(i32::MIN.modulo(1), 0);
    assert_eq!(i32::MIN.modulo(-1), 0);
    assert_eq!(i32::MIN.modulo(i32::MIN), 0);
    assert_eq!(i32::MIN.modulo(i32::MAX), i32::MAX - 1);
    assert_eq!(i32::MAX.modulo(i32::MIN), -1);
    assert_eq!(1i32.modulo(i32::MIN), i32::MIN + 1);
    assert_eq!((-1i32).modulo(i32::MIN), -1);
    assert_eq!(0i32.modulo(i32::MIN), 0);
    assert_eq!(i32::MIN.modulo(-7), -2);
    assert_eq!(i32::MAX.modulo(i32::MAX), 0);
}

#[test]
fn modulo_agrees_with_the_remainder_formula() {
    for a in -70i16..70 {
        for n in [-9i16, -4, -1, 1, 2, 5, 20, 30] {
            let expected = (a % n + n) % n;
            assert_eq!(a.modulo(n), expected);
            assert_eq!((a as i8).modulo(n as i8), expected as i8);
            assert_eq!((a as i32).modulo(n as i32), expected as i32);
            assert_eq!((a as i64).modulo(n as i64), expected as i64);
            assert_eq!((a as i128).modulo(n as i128), expected as i128);
            assert_eq!((a as isize).modulo(n as isize), expected as isize);
        }
    }
}

#[test]
fn every_signed_integer_has_the_modulus() {
    assert_eq!((-1i8).modulo(20), 19);
    assert_eq!(i8::MIN.modulo(-1), 0);
    assert_eq!(i8::MIN.modulo(i8::MAX), i8::MAX - 1);
    assert_eq!(i8::MAX.modulo(i8::MIN), -1);
    assert_eq!(i8::MIN.modulo(i8::MIN), 0);
    assert_eq!((-1i64).modulo(30), 29);
    assert_eq!(i64::MIN.modulo(7), 6);
    assert_eq!(i64::MIN.modulo(-1), 0);
    assert_eq!(i64::MIN.modulo(i64::MAX), i64::MAX - 1);
    assert_eq!(i64::MAX.modulo(i64::MIN), -1);
    assert_eq!(1i64.modulo(i64::MIN), i64::MIN + 1);
    assert_eq!((-1isize).modulo(30), 29);
    assert_eq!(isize::MIN.modulo(-1), 0);
    assert_eq!(isize::MIN.modulo(isize::MAX), isize::MAX - 1);
    assert_eq!(isize::MAX.modulo(isize::MIN), -1);
    assert_eq!((-1i128).modulo(30), 29);
    assert_eq!(5i128.modulo(-3), -1);
    assert_eq!(i128::MIN.modulo(7), 5);
    assert_eq!(i128::MIN.modulo(1), 0);
    assert_eq!(i128::MIN.modulo(-1), 0);
    assert_eq!(i128::MIN.modulo(-7), -2);
    assert_eq!(i128::MIN.modulo(i128::MIN), 0);
    assert_eq!(i128::MIN.modulo(i128::MAX), i128::MAX - 1);
    assert_eq!(i128::MAX.modulo(i128::MIN), -1);
    assert_eq!(i128::MAX.modulo(i128::MAX), 0);
    assert_eq!(1i128.modulo(i128::MIN), i128::MIN + 1);
    assert_eq!((-1i128).modulo(i128::MIN), -1);
    assert_eq!(0i128.modulo(i128::MIN), 0);
}

#[test]
fn moves_wrap_around_the_board() {
    assert_eq!(GRID_SIZE, (30, 20));
    assert_eq!(GridPosition::new_from_move(cell(5, 5), Direction::Up), cell(5, 4));
    assert_eq!(GridPosition::new_from_move(cell(5, 5), Direction::Down), cell(5, 6));
    assert_eq!(GridPosition::new_from_move(cell(5, 5), Direction::Left), cell(4, 5));
    assert_eq!(GridPosition::new_from_move(cell(5, 5), Direction::Right), cell(6, 5));
    assert_eq!(GridPosition::new_from_move(cell(0, 0), Direction::Up), cell(0, 19));
    assert_eq!(GridPosition::new_from_move(cell(3, 19), Direction::Down), cell(3, 0));
    assert_eq!(GridPosition::new_from_move(cell(0, 5), Direction::Left), cell(29, 5));
    assert_eq!(GridPosition::new_from_move(cell(29, 0), Direction::Right), cell(0, 0));
    // A cell far off the board comes back onto it along the axis of the move.
    assert_eq!(GridPosition::new_from_move(cell(7, i16::MIN), Direction::Up), cell(7, 11));
    assert_eq!(GridPosition::new_from_move(cell(i16::MAX, -3), Direction::Right), cell(8, -3));
    assert_eq!(GridPosition::new_from_move(cell(-1, 40), Direction::Left), cell(28, 40));
}

#[test]
fn cells_from_pairs() {
    assert_eq!(GridPosition::from((3, -4)), cell(3, -4));
    let p: GridPosition = (7, 10).into();
    assert_eq!(p, GridPosition { x: 7, y: 10 });
}

#[test]
fn random_cells_lie_within_their_bounds() {
    let mut seen = [false; 3];
    for _ in 0..300 {
        let p = GridPosition::random(3, 1);
        assert!(0 <= p.x && p.x < 3);
        assert_eq!(p.y, 0);
        seen[p.x as usize] = true;
    }
    assert_eq!(seen, [true, true, true]);
    for _ in 0..300 {
        let p = GridPosition::random(GRID_SIZE.0, GRID_SIZE.1);
        assert!(0 <= p.x && p.x < 30 && 0 <= p.y && p.y < 20);
    }
    assert_eq!(GridPosition::random(1, 1), cell(0, 0));
}

#[test]
fn directions_and_their_inverse() {
    assert_eq!(Direction::Up.inverse(), Direction::Down);
    assert_eq!(Direction::Down.inverse(), Direction::Up);
    assert_eq!(Direction::Left.inverse(), Direction::Right);
    assert_eq!(Direction::Right.inverse(), Direction::Left);
    for d in [Direction::Up, Direction::Down, Direction::Left, Direction::Right] {
        assert_eq!(d.inverse().inverse(), d);
        assert_ne!(d.inverse(), d);
    }
}

#[test]
fn arrow_keys_give_directions() {
    assert_eq!(Direction::from_keycode(Keycode::Up), Some(Direction::Up));
    assert_eq!(Direction::from_keycode(Keycode::Down), Some(Direction::Down));
    assert_eq!(Direction::from_keycode(Keycode::Left), Some(Direction::Left));
    assert_eq!(Direction::from_keycode(Keycode::Right), Some(Direction::Right));
    for key in [Keycode::Q, Keycode::D, Keycode::Z, Keycode::S, Keycode::Escape, Keycode::Return, Keycode::Other] {
        assert_eq!(Direction::from_keycode(key), None);
    }
}

#[test]
fn a_new_snake_heads_right() {
    let snake = Snake::new(cell(7, 10));
    assert_eq!(snake.head, Segment::new(cell(7, 10), Direction::Right));
    assert_eq!(snake.body, VecDeque::from(vec![Segment::new(cell(6, 10), Direction::Right)]));
    assert_eq!(snake.ate, None);
    assert_eq!(snake.last_update_dir, Direction::Right);
    assert!(!snake.eats_self());
    assert!(snake.eats(&Food::new(cell(7, 10))));
    assert!(!snake.eats(&Food::new(cell(6, 10))));
}

#[test]
fn the_snake_moves_by_one_cell() {
    let mut snake = Snake::new(cell(7, 10));
    let food = Food::new(cell(20, 3));
    snake.update(&food);
    assert_eq!(snake.head, Segment::new(cell(8, 10), Direction::Right));
    assert_eq!(body_of(&snake), vec![(7, 10)]);
    assert_eq!(snake.ate, None);
    snake.head.dir = Direction::Up;
    snake.update(&food);
    assert_eq!(snake.head, Segment::new(cell(8, 9), Direction::Up));
    assert_eq!(body_of(&snake), vec![(8, 10)]);
    assert_eq!(snake.body[0].dir, Direction::Up);
    assert_eq!(snake.last_update_dir, Direction::Up);
}

#[test]
fn the_snake_grows_when_it_eats() {
    let mut snake = Snake::new(cell(7, 10));
    snake.update(&Food::new(cell(8, 10)));
    assert_eq!(snake.ate, Some(Ate::Food));
    assert_eq!(snake.head.pos, cell(8, 10));
    assert_eq!(body_of(&snake), vec![(7, 10), (6, 10)]);
    snake.update(&Food::new(cell(0, 0)));
    assert_eq!(snake.ate, None);
    assert_eq!(body_of(&snake), vec![(8, 10), (7, 10)]);
}

#[test]
fn the_snake_eats_itself() {
    let mut snake = Snake::new(cell(7, 10));
    // Grow to five segments, then turn back into the body.
    for x in 8..12 {
        snake.update(&Food::new(cell(x, 10)));
        assert_eq!(snake.ate, Some(Ate::Food));
    }
    assert_eq!(body_of(&snake), vec![(10, 10), (9, 10), (8, 10), (7, 10), (6, 10)]);
    let nowhere = Food::new(cell(0, 0));
    snake.head.dir = Direction::Down;
    snake.update(&nowhere);
    snake.head.dir = Direction::Left;
    snake.update(&nowhere);
    assert_eq!(snake.ate, None);
    assert!(!snake.eats_self());
    snake.head.dir = Direction::Up;
    snake.update(&nowhere);
    assert_eq!(snake.head.pos, cell(10, 10));
    assert_eq!(snake.ate, Some(Ate::Itself));
    assert!(snake.eats_self());
    // Having eaten, it keeps its tail.
    assert_eq!(body_of(&snake), vec![(10, 11), (11, 11), (11, 10), (10, 10), (9, 10), (8, 10)]);
}

#[test]
fn itself_comes_before_food() {
    // A snake that turns straight back runs into its first segment, food or not.
    let mut snake = Snake::new(cell(7, 10));
    snake.update(&Food::new(cell(8, 10)));
    snake.head.dir = Direction::Left;
    snake.update(&Food::new(cell(7, 10)));
    assert_eq!(snake.head.pos, cell(7, 10));
    assert_eq!(snake.ate, Some(Ate::Itself));
}

#[test]
fn squares_glide_between_cells() {
    assert_eq!(GRID_CELL_SIZE, (32, 32));
    assert_eq!(MILLIS_PER_TILES, 125);
    assert_eq!(SCREEN_SIZE, (30 * 32, 20 * 32));
    let right = Segment::new(cell(3, 4), Direction::Right);
    // Half the time between two updates is 62 ms: the square is on its cell.
    assert_eq!(right.as_rect(62), Rect { x: 96, y: 128, w: 32, h: 32 });
    assert_eq!(right.as_rect(0), Rect { x: 80, y: 128, w: 32, h: 32 });
    assert_eq!(right.as_rect(125), Rect { x: 112, y: 128, w: 32, h: 32 });
    assert_eq!(right.as_rect(100), Rect { x: 105, y: 128, w: 32, h: 32 });
    let left = Segment::new(cell(3, 4), Direction::Left);
    assert_eq!(left.as_rect(0), Rect { x: 112, y: 128, w: 32, h: 32 });
    assert_eq!(left.as_rect(100), Rect { x: 87, y: 128, w: 32, h: 32 });
    let up = Segment::new(cell(3, 4), Direction::Up);
    assert_eq!(up.as_rect(0), Rect { x: 96, y: 144, w: 32, h: 32 });
    assert_eq!(up.as_rect(125), Rect { x: 96, y: 112, w: 32, h: 32 });
    let down = Segment::new(cell(3, 4), Direction::Down);
    assert_eq!(down.as_rect(0), Rect { x: 96, y: 112, w: 32, h: 32 });
    assert_eq!(down.as_rect(125), Rect { x: 96, y: 144, w: 32, h: 32 });
    // Far off the board and late, the square still has a place.
    let far = Segment::new(cell(i16::MAX, i16::MIN), Direction::Right);
    assert_eq!(
        far.as_rect(u32::MAX),
        Rect { x: 32767 * 32 + 1_099_511_611, y: -32768 * 32, w: 32, h: 32 }
    );
}

#[test]
fn half_cells_for_head_and_tail() {
    let at = cell(3, 4);
    let half = |dir, pos| Segment::new(at, dir).as_semi_rect(pos);
    assert_eq!(half(Direction::Right, Pos::Front), Rect { x: 96, y: 128, w: 16, h: 32 });
    assert_eq!(half(Direction::Right, Pos::Back), Rect { x: 112, y: 128, w: 16, h: 32 });
    assert_eq!(half(Direction::Left, Pos::Front), Rect { x: 112, y: 128, w: 16, h: 32 });
    assert_eq!(half(Direction::Left, Pos::Back), Rect { x: 96, y: 128, w: 16, h: 32 });
    assert_eq!(half(Direction::Up, Pos::Front), Rect { x: 96, y: 144, w: 32, h: 16 });
    assert_eq!(half(Direction::Up, Pos::Back), Rect { x: 96, y: 128, w: 32, h: 16 });
    assert_eq!(half(Direction::Down, Pos::Front), Rect { x: 96, y: 128, w: 32, h: 16 });
    assert_eq!(half(Direction::Down, Pos::Back), Rect { x: 96, y: 144, w: 32, h: 16 });
    assert_eq!(
        Segment::new(cell(-1, -2), Direction::Left).as_semi_rect(Pos::Front),
        Rect { x: -16, y: -64, w: 16, h: 32 }
    );
}

#[test]
fn cells_fill_their_place_in_the_window() {
    assert_eq!(Rect::from(cell(3, 4)), Rect { x: 96, y: 128, w: 32, h: 32 });
    assert_eq!(Rect::from(cell(0, 0)), Rect { x: 0, y: 0, w: 32, h: 32 });
    assert_eq!(Rect::from(cell(29, 19)), Rect { x: 928, y: 608, w: 32, h: 32 });
    let far: Rect = cell(i16::MIN, i16::MAX).into();
    assert_eq!(far, Rect { x: -1_048_576, y: 1_048_544, w: 32, h: 32 });
}

#[test]
fn a_new_game_starts_with_a_short_snake() {
    let state = GameState::new();
    assert_eq!(state.snake.head, Segment::new(cell(7, 10), Direction::Right));
    assert_eq!(body_of(&state.snake), vec![(6, 10)]);
    assert_eq!(state.snake.ate, None);
    assert!(!state.gameover);
    assert_eq!(state.time_since_last_update, 0);
    assert!(0 <= state.food.pos.x && state.food.pos.x < 30);
    assert!(0 <= state.food.pos.y && state.food.pos.y < 20);
}

#[test]
fn the_game_waits_for_its_time() {
    let mut state = GameState::new();
    state.food.pos = cell(0, 0);
    assert!(!state.update(0));
    assert!(!state.update(124));
    assert_eq!(state.time_since_last_update, 124);
    assert_eq!(state.snake.head.pos, cell(7, 10));
    assert!(state.update(125));
    assert_eq!(state.time_since_last_update, 0);
    assert_eq!(state.snake.head.pos, cell(8, 10));
    assert!(state.update(u64::MAX));
    assert_eq!(state.snake.head.pos, cell(9, 10));
    assert_eq!(state.food.pos, cell(0, 0));
    assert!(!state.gameover);
}

#[test]
fn eaten_food_comes_back_on_the_board() {
    for _ in 0..50 {
        let mut state = GameState::new();
        state.food.pos = cell(8, 10);
        assert!(state.update(125));
        assert_eq!(state.snake.ate, Some(Ate::Food));
        assert_eq!(body_of(&state.snake), vec![(7, 10), (6, 10)]);
        assert!(0 <= state.food.pos.x && state.food.pos.x < 30);
        assert!(0 <= state.food.pos.y && state.food.pos.y < 20);
        assert!(!state.gameover);
    }
}

#[test]
fn the_game_ends_and_starts_anew() {
    let mut state = GameState::new();
    state.food.pos = cell(8, 10);
    state.update(125);
    state.food.pos = cell(0, 0);
    // Straight back into the body.
    state.snake.head.dir = Direction::Left;
    assert!(state.update(125));
    assert_eq!(state.snake.ate, Some(Ate::Itself));
    assert!(state.gameover);
    assert_eq!(state.food.pos, cell(0, 0));
    // Nothing moves until the time is up; then the game starts anew.
    assert!(!state.update(100));
    assert!(state.gameover);
    assert!(state.update(125));
    assert!(!state.gameover);
    assert_eq!(state.snake.head, Segment::new(cell(7, 10), Direction::Right));
    assert_eq!(body_of(&state.snake), vec![(6, 10)]);
    assert_eq!(state.snake.ate, None);
    assert_eq!(state.time_since_last_update, 0);
}

#[test]
fn the_snake_does_not_turn_straight_back() {
    let mut state = GameState::new();
    state.key_down_event(Keycode::Left);
    assert_eq!(state.snake.head.dir, Direction::Right);
    state.key_down_event(Keycode::Up);
    assert_eq!(state.snake.head.dir, Direction::Up);
    // Until the snake has moved, it is the last move that counts.
    state.key_down_event(Keycode::Left);
    assert_eq!(state.snake.head.dir, Direction::Up);
    state.key_down_event(Keycode::Down);
    assert_eq!(state.snake.head.dir, Direction::Down);
    state.key_down_event(Keycode::Q);
    state.key_down_event(Keycode::Other);
    assert_eq!(state.snake.head.dir, Direction::Down);
    state.food.pos = cell(0, 0);
    state.update(125);
    assert_eq!(state.snake.last_update_dir, Direction::Down);
    state.key_down_event(Keycode::Up);
    assert_eq!(state.snake.head.dir, Direction::Down);
    state.key_down_event(Keycode::Left);
    assert_eq!(state.snake.head.dir, Direction::Left);
}
