use pong_engine::entities::{Ball, Movement, Paddle};
use pong_engine::game::Game;
use pong_engine::geometry::{Point, Rect, Vector};

const SERVE: Vector = Vector { x: 1000, y: 0 };

fn running_game() -> Game {
    let mut g = Game::new(100_000, 50_000, 10_000, SERVE);
    g.start(SERVE);
    g
}

#[test]
fn new_game_waits_above_the_arena() {
    let g = Game::new(100_000, 50_000, 10_000, SERVE);
    assert!(!g.started);
    assert_eq!(g.center, Point::new(50_000, 25_000));
    assert_eq!(g.paddle_size, Rect::new(2250, 23_000, 500, 4000));
    assert_eq!(g.left_paddle.bounds, Rect::new(2250, -4000, 500, 4000));
    assert_eq!(g.right_paddle.bounds, Rect::new(97_750, -4000, 500, 4000));
    assert_eq!(g.ball.bounds, Rect::new(50_000, -1000, 1000, 1000));
    assert_eq!(g.left_paddle.score, 0);
    assert_eq!(g.right_paddle.score, 0);
}

#[test]
fn center_is_rounded_to_whole_units() {
    let g = Game::new(5000, 3000, 1000, SERVE);
    assert_eq!(g.center, Point::new(3000, 2000));
    let g = Game::new(4999, 2999, 1000, SERVE);
    assert_eq!(g.center, Point::new(2000, 1000));
}

#[test]
fn start_serves_from_the_middle() {
    let g = running_game();
    assert!(g.started);
    assert_eq!(g.left_paddle.bounds.position, Point::new(2250, 23_000));
    assert_eq!(g.right_paddle.bounds.position, Point::new(97_750, 23_000));
    assert_eq!(g.ball.bounds.position, Point::new(50_000, 25_000));
    assert_eq!(g.ball.direction, SERVE);
}

#[test]
fn tick_moves_the_ball() {
    let mut g = running_game();
    g.ball.direction = Vector::new(600, 800);
    g.tick(100, None, SERVE);
    assert_eq!(g.ball.bounds.position, Point::new(50_600, 25_800));
}

#[test]
fn stopped_game_ignores_ticks() {
    let mut g = Game::new(100_000, 50_000, 10_000, SERVE);
    let before = g;
    g.tick(100, Some(Movement::Up), SERVE);
    assert_eq!(g, before);
}

#[test]
fn right_exit_scores_for_left_paddle() {
    let mut g = running_game();
    g.ball.direction = Vector::new(-1000, 0);
    let mut ticks = 0;
    while g.left_paddle.score == 0 && ticks < 1000 {
        g.tick(100, None, SERVE);
        ticks += 1;
    }
    assert_eq!(g.left_paddle.score, 1);
    assert_eq!(g.right_paddle.score, 0);
    assert!(g.started);
    assert_eq!(g.ball.bounds.position, Point::new(50_000, 25_000));
    assert_eq!(g.ball.direction, SERVE);
    assert_eq!(g.left_paddle.bounds.position, Point::new(2250, 23_000));
    assert_eq!(g.right_paddle.bounds.position, Point::new(97_750, 23_000));
}

#[test]
fn left_exit_scores_for_right_paddle() {
    let mut g = running_game();
    g.ball.bounds.position = Point::new(-900, 10_000);
    g.ball.direction = Vector::new(-1000, 0);
    let serve = Vector::new(0, -1000);
    g.tick(100, None, serve);
    assert_eq!(g.right_paddle.score, 1);
    assert_eq!(g.left_paddle.score, 0);
    assert_eq!(g.ball.bounds.position, Point::new(50_000, 25_000));
    assert_eq!(g.ball.direction, serve);
}

#[test]
fn left_paddle_hit_at_center_goes_straight_back() {
    let mut g = running_game();
    g.ball.direction = Vector::new(-1000, 0);
    g.ball.bounds.position = Point::new(2600, 24_500);
    g.tick(100, None, SERVE);
    assert_eq!(g.ball.bounds.position, Point::new(1600, 24_500));
    assert_eq!(g.ball.direction, Vector::new(1000, 0));
}

#[test]
fn right_paddle_hit_is_tilted_by_offset() {
    let mut g = running_game();
    g.ball.direction = Vector::new(1000, 0);
    g.ball.bounds.position = Point::new(96_000, 25_000);
    g.tick(100, None, SERVE);
    assert_eq!(g.ball.direction, Vector::new(-992, 124));
}

#[test]
fn wall_bounce_mirrors_vertical_direction() {
    let mut g = running_game();
    g.ball.direction = Vector::new(600, -800);
    g.ball.bounds.position = Point::new(40_000, 500);
    g.tick(100, None, SERVE);
    assert_eq!(g.ball.bounds.position, Point::new(40_600, -300));
    assert_eq!(g.ball.direction, Vector::new(600, 800));
    g.ball.bounds.position = Point::new(40_000, 49_500);
    g.tick(100, None, SERVE);
    assert_eq!(g.ball.direction, Vector::new(600, -800));
}

#[test]
fn eleventh_point_stops_the_match() {
    let mut g = running_game();
    g.left_paddle.score = 10;
    g.right_paddle.score = 4;
    g.ball.bounds.position = Point::new(100_500, 10_000);
    g.tick(100, None, SERVE);
    assert!(!g.started);
    assert_eq!(g.left_paddle.score, 0);
    assert_eq!(g.right_paddle.score, 0);
    assert_eq!(g.ball.direction, Vector::new(0, 0));
    assert_eq!(g.ball.bounds.position.y, -1000);
    assert_eq!(g.left_paddle.bounds.position.y, -4000);
    assert_eq!(g.right_paddle.bounds.position.y, -4000);
    let after = g;
    g.tick(100, Some(Movement::Down), SERVE);
    assert_eq!(g, after);
}

#[test]
fn input_moves_only_the_left_paddle() {
    let mut g = running_game();
    g.tick(100, Some(Movement::Up), SERVE);
    assert_eq!(g.left_paddle.bounds.position, Point::new(2250, 22_000));
    assert_eq!(g.right_paddle.bounds.position, Point::new(97_750, 23_000));
    g.tick(250, Some(Movement::Down), SERVE);
    assert_eq!(g.left_paddle.bounds.position, Point::new(2250, 24_500));
}

#[test]
fn paddle_is_not_clamped_to_the_arena() {
    let mut g = running_game();
    for _ in 0..30 {
        g.tick(100, Some(Movement::Up), SERVE);
    }
    assert_eq!(g.left_paddle.bounds.position.y, -7000);
}

#[test]
fn stop_and_reset_scores() {
    let mut g = running_game();
    g.left_paddle.score = 3;
    g.right_paddle.score = 2;
    g.reset_scores();
    assert_eq!((g.left_paddle.score, g.right_paddle.score), (0, 0));
    g.left_paddle.score = 5;
    g.stop();
    assert!(!g.started);
    assert_eq!(g.left_paddle.score, 0);
    assert_eq!(g.ball.direction, Vector::new(0, 0));
}

#[test]
fn next_round_keeps_scores() {
    let mut g = running_game();
    g.left_paddle.score = 2;
    g.ball.bounds.position = Point::new(1, 2);
    g.left_paddle.bounds.position = Point::new(7, 7);
    let serve = Vector::new(-600, 800);
    g.next_round(serve);
    assert_eq!(g.left_paddle.score, 2);
    assert_eq!(g.left_paddle.bounds.position, Point::new(2250, 23_000));
    assert_eq!(g.ball.bounds.position, Point::new(50_000, 25_000));
    assert_eq!(g.ball.direction, serve);
}

#[test]
fn paddle_operations() {
    let mut p = Paddle::new(1000, 2000, 500, 4000, 10_000);
    p.increment_score();
    assert_eq!(p.score, 1);
    let up = p.process_movement(Movement::Up);
    assert_eq!(up, Vector::new(0, -1000));
    assert_eq!(p.process_movement(Movement::Down), Vector::new(0, 1000));
    p.apply_movement(50, up);
    assert_eq!(p.bounds.position, Point::new(1000, 1500));
}

#[test]
fn ball_operations() {
    let mut b = Ball::new(1000, 1000, 100_000, 50_001, 20_000, Vector::new(1000, 0));
    assert_eq!(b.bounds.position, Point::new(50_000, 25_000));
    b.apply_movement(100);
    assert_eq!(b.bounds.position, Point::new(52_000, 25_000));
    b.reset(100_000, 50_000, Vector::new(0, 1000));
    assert_eq!(b.bounds.position, Point::new(50_000, 25_000));
    assert_eq!(b.direction, Vector::new(0, 1000));
}
