//! The match engine: one ball, two paddles, scoring and the match lifecycle.
use vstd::prelude::*;
use crate::entities::{
    can_travel, moved, movement_vector, serve_position, Ball, Movement, Paddle,
};
use crate::fixed::{
    abs, fdiv, lemma_fmul_by_fraction, lemma_travel_bound, DELTA_LIMIT, ONE, SPEED_LIMIT,
};
use crate::geometry::{
    boxes_overlap, can_normalize, lemma_normalized_unit_length, norm2, normalized, Point, Rect,
    Vector,
};

verus! {

/// Largest arena width or height that the engine accepts: a billion units.
pub const DIMENSION_LIMIT: i64 = 1_000_000_000_000;

pub const PADDLE_WIDTH: i64 = 500;

pub const PADDLE_HEIGHT: i64 = 4000;

/// Gap between the left edge of the arena and the left paddle's centre line.
pub const PADDLE_MARGIN: i64 = 2000;

pub const BALL_SIZE: i64 = 1000;

/// The score at which a match ends.
pub const WIN_SCORE: i32 = 11;

/// A direction that the ball may take: no component beyond one.
pub open spec fn is_direction(v: Vector) -> bool {
    abs(v.x as int) <= ONE && abs(v.y as int) <= ONE
}

/// `v` rounded to the nearest whole unit, halves rounded up; `v` is not negative.
pub open spec fn round_to_unit(v: int) -> int {
    (v + ONE / 2) / (ONE as int) * ONE
}

/// The centre of an arena, each coordinate rounded to a whole unit.
pub open spec fn arena_center(width: int, height: int) -> Point {
    Point { x: round_to_unit(width / 2) as i64, y: round_to_unit(height / 2) as i64 }
}

/// The left paddle's in-play rectangle.
pub open spec fn paddle_template(center: Point) -> Rect {
    Rect {
        position: Point {
            x: (PADDLE_MARGIN + PADDLE_WIDTH / 2) as i64,
            y: (center.y - PADDLE_HEIGHT / 2) as i64,
        },
        width: PADDLE_WIDTH,
        height: PADDLE_HEIGHT,
    }
}

#[derive(Clone, Copy, Debug, PartialEq, Eq, Structural)]
pub struct Game {
    pub width: i64,
    pub height: i64,
    pub center: Point,
    pub paddle_size: Rect,
    pub speed: i64,
    pub left_paddle: Paddle,
    pub right_paddle: Paddle,
    pub ball: Ball,
    pub started: bool,
}

/// How far the ball's centre lies below the paddle's centre, as a fraction of
/// the paddle's height.
pub open spec fn hit_factor_of(paddle: Paddle, ball: Ball) -> int {
    let ball_center = ball.bounds.position.y + ball.bounds.height / 2;
    let paddle_center = paddle.bounds.position.y + paddle.bounds.height / 2;
    fdiv(ball_center - paddle_center, paddle.bounds.height as int)
}

/// The ball touches or crosses the top or bottom edge of an arena of the given height.
pub open spec fn hits_wall(rect: Rect, height: int) -> bool {
    rect.position.y < 0 || rect.position.y + rect.height > height
}

impl Game {
    /// The invariant of a game: its configuration is in range and fixed, each
    /// piece has its size and speed, the ball's direction has no component beyond
    /// one, and no score has reached `WIN_SCORE`.
    pub open spec fn wf(&self) -> bool {
        &&& self.wf_config()
        &&& self.left_paddle.score < WIN_SCORE
        &&& self.right_paddle.score < WIN_SCORE
    }

    /// The invariant without the bound on the scores: what holds between a goal
    /// and the check for a won match.
    pub open spec fn wf_config(&self) -> bool {
        &&& 0 < self.width <= DIMENSION_LIMIT
        &&& 0 < self.height <= DIMENSION_LIMIT
        &&& 0 < self.speed <= SPEED_LIMIT
        &&& self.center == arena_center(self.width as int, self.height as int)
        &&& self.paddle_size == paddle_template(self.center)
        &&& self.left_paddle.bounds.width == PADDLE_WIDTH
        &&& self.left_paddle.bounds.height == PADDLE_HEIGHT
        &&& self.right_paddle.bounds.width == PADDLE_WIDTH
        &&& self.right_paddle.bounds.height == PADDLE_HEIGHT
        &&& self.left_paddle.speed == self.speed
        &&& self.right_paddle.speed == self.speed
        &&& self.ball.bounds.width == BALL_SIZE
        &&& self.ball.bounds.height == BALL_SIZE
        &&& self.ball.speed == self.speed
        &&& is_direction(self.ball.direction)
        &&& 0 <= self.left_paddle.score <= WIN_SCORE
        &&& 0 <= self.right_paddle.score <= WIN_SCORE
    }

    /// Both paddles in play and the ball served along `serve`; scores kept.
    pub open spec fn after_next_round(self, serve: Vector) -> Game {
        Game {
            left_paddle: Paddle {
                bounds: Rect { position: self.paddle_size.position, ..self.left_paddle.bounds },
                ..self.left_paddle
            },
            right_paddle: Paddle {
                bounds: Rect {
                    position: Point {
                        x: (self.width - self.paddle_size.position.x) as i64,
                        y: self.paddle_size.position.y,
                    },
                    ..self.right_paddle.bounds
                },
                ..self.right_paddle
            },
            ball: Ball {
                bounds: Rect {
                    position: serve_position(self.width as int, self.height as int),
                    ..self.ball.bounds
                },
                direction: serve,
                ..self.ball
            },
            ..self
        }
    }

    pub open spec fn after_reset_scores(self) -> Game {
        Game {
            left_paddle: Paddle { score: 0, ..self.left_paddle },
            right_paddle: Paddle { score: 0, ..self.right_paddle },
            ..self
        }
    }

    /// Paddles and ball moved just above the arena, the ball at rest.
    pub open spec fn after_hide_all(self) -> Game {
        Game {
            left_paddle: Paddle {
                bounds: Rect {
                    position: Point {
                        y: (-self.paddle_size.height) as i64,
                        ..self.left_paddle.bounds.position
                    },
                    ..self.left_paddle.bounds
                },
                ..self.left_paddle
            },
            right_paddle: Paddle {
                bounds: Rect {
                    position: Point {
                        y: (-self.paddle_size.height) as i64,
                        ..self.right_paddle.bounds.position
                    },
                    ..self.right_paddle.bounds
                },
                ..self.right_paddle
            },
            ball: Ball {
                bounds: Rect {
                    position: Point {
                        y: (-self.ball.bounds.height) as i64,
                        ..self.ball.bounds.position
                    },
                    ..self.ball.bounds
                },
                direction: Vector { x: 0, y: 0 },
                ..self.ball
            },
            ..self
        }
    }

    pub open spec fn after_stop(self) -> Game {
        Game { started: false, ..self.after_reset_scores().after_hide_all() }
    }

    /// The ball advanced along its direction.
    pub open spec fn after_ball_moved(self, delta_time: int) -> Game {
        Game {
            ball: Ball {
                bounds: Rect {
                    position: moved(
                        self.ball.bounds.position,
                        self.ball.direction,
                        self.ball.speed as int,
                        delta_time,
                    ),
                    ..self.ball.bounds
                },
                ..self.ball
            },
            ..self
        }
    }

    /// A ball wholly left of the arena scores for the right paddle; a ball whose
    /// left edge is past the right edge scores for the left paddle. Either way a
    /// new round begins.
    pub open spec fn after_goal_check(self, serve: Vector) -> Game {
        if self.ball.bounds.position.x + self.ball.bounds.width < 0 {
            Game {
                right_paddle: Paddle {
                    score: (self.right_paddle.score + 1) as i32,
                    ..self.right_paddle
                },
                ..self
            }.after_next_round(serve)
        } else if self.ball.bounds.position.x > self.width {
            Game {
                left_paddle: Paddle {
                    score: (self.left_paddle.score + 1) as i32,
                    ..self.left_paddle
                },
                ..self
            }.after_next_round(serve)
        } else {
            self
        }
    }

    pub open spec fn after_win_check(self) -> Game {
        if self.left_paddle.score >= WIN_SCORE || self.right_paddle.score >= WIN_SCORE {
            self.after_stop()
        } else {
            self
        }
    }

    pub open spec fn after_wall_bounce(self) -> Game {
        if hits_wall(self.ball.bounds, self.height as int) {
            Game {
                ball: Ball {
                    direction: Vector {
                        x: self.ball.direction.x,
                        y: (-self.ball.direction.y) as i64,
                    },
                    ..self.ball
                },
                ..self
            }
        } else {
            self
        }
    }

    /// A ball that overlaps a paddle is sent back toward the other side, tilted
    /// by where it met the paddle. The left paddle is tested first.
    pub open spec fn after_paddle_hit(self) -> Game {
        if boxes_overlap(self.left_paddle.bounds, self.ball.bounds) {
            Game {
                ball: Ball {
                    direction: normalized(
                        Vector { x: ONE, y: hit_factor_of(self.left_paddle, self.ball) as i64 },
                    ),
                    ..self.ball
                },
                ..self
            }
        } else if boxes_overlap(self.right_paddle.bounds, self.ball.bounds) {
            Game {
                ball: Ball {
                    direction: normalized(
                        Vector {
                            x: (-ONE) as i64,
                            y: hit_factor_of(self.right_paddle, self.ball) as i64,
                        },
                    ),
                    ..self.ball
                },
                ..self
            }
        } else {
            self
        }
    }

    /// A movement request drives the left paddle.
    pub open spec fn after_input(self, delta_time: int, movement: Option<Movement>) -> Game {
        match movement {
            Some(m) => Game {
                left_paddle: Paddle {
                    bounds: Rect {
                        position: moved(
                            self.left_paddle.bounds.position,
                            movement_vector(m),
                            self.left_paddle.speed as int,
                            delta_time,
                        ),
                        ..self.left_paddle.bounds
                    },
                    ..self.left_paddle
                },
                ..self
            },
            None => self,
        }
    }

    /// One frame of a running match, before the paddle hit and the input.
    pub open spec fn after_bounces(self, delta_time: int, serve: Vector) -> Game {
        self.after_ball_moved(delta_time).after_goal_check(serve).after_win_check().after_wall_bounce()
    }

    /// One frame: nothing while stopped; otherwise the ball moves, goals are
    /// scored, a won match stops, the ball bounces off walls and paddles, and the
    /// left paddle follows the input, in that order.
    pub open spec fn after_tick(
        self,
        delta_time: int,
        movement: Option<Movement>,
        serve: Vector,
    ) -> Game {
        if !self.started {
            self
        } else {
            self.after_bounces(delta_time, serve).after_paddle_hit().after_input(
                delta_time,
                movement,
            )
        }
    }
}

proof fn lemma_hit_factor_bound(paddle: Paddle, ball: Ball)
    requires
        paddle.bounds.height == PADDLE_HEIGHT,
        ball.bounds.height == BALL_SIZE,
        boxes_overlap(paddle.bounds, ball.bounds),
    ensures
        abs(hit_factor_of(paddle, ball)) <= ONE * 2,
{
    let ball_center = ball.bounds.position.y + ball.bounds.height / 2;
    let paddle_center = paddle.bounds.position.y + paddle.bounds.height / 2;
    crate::fixed::lemma_trunc_quotient((ball_center - paddle_center) * ONE, PADDLE_HEIGHT as int);
}

/// Bouncing off a paddle leaves a direction.
proof fn lemma_bounce_direction(v: Vector)
    requires
        can_normalize(v),
    ensures
        is_direction(normalized(v)),
{
    lemma_normalized_unit_length(v);
    let x = normalized(v).x as int;
    let y = normalized(v).y as int;
    assert(abs(x) <= ONE && abs(y) <= ONE) by (nonlinear_arith)
        requires
            x * x + y * y < (ONE + 1) * (ONE + 1),
    ;
}

impl Game {
    /// A stopped game on an arena of `width` by `height`, with paddles and ball
    /// waiting above it; `serve` is the ball's first direction.
    pub fn new(width: i64, height: i64, speed: i64, serve: Vector) -> (r: Game)
        requires
            0 < width <= DIMENSION_LIMIT,
            0 < height <= DIMENSION_LIMIT,
            0 < speed <= SPEED_LIMIT,
            is_direction(serve),
        ensures
            r.wf(),
            !r.started,
            r.width == width,
            r.height == height,
            r.speed == speed,
            r.left_paddle == (Paddle {
                bounds: Rect {
                    position: Point { x: r.paddle_size.position.x, y: (-PADDLE_HEIGHT) as i64 },
                    width: PADDLE_WIDTH,
                    height: PADDLE_HEIGHT,
                },
                speed,
                score: 0,
            }),
            r.right_paddle == (Paddle {
                bounds: Rect {
                    position: Point {
                        x: (width - r.paddle_size.position.x) as i64,
                        y: (-PADDLE_HEIGHT) as i64,
                    },
                    width: PADDLE_WIDTH,
                    height: PADDLE_HEIGHT,
                },
                speed,
                score: 0,
            }),
            r.ball == (Ball {
                bounds: Rect {
                    position: Point { x: (width / 2) as i64, y: (-BALL_SIZE) as i64 },
                    width: BALL_SIZE,
                    height: BALL_SIZE,
                },
                direction: serve,
                speed,
            }),
    {
        let center = Point::new(
            (width / 2 + ONE / 2) / ONE * ONE,
            (height / 2 + ONE / 2) / ONE * ONE,
        );
        let half_height = PADDLE_HEIGHT / 2;
        let half_width = PADDLE_WIDTH / 2;
        let paddle_size = Rect::new(
            PADDLE_MARGIN + half_width,
            center.y - half_height,
            PADDLE_WIDTH,
            PADDLE_HEIGHT,
        );
        let left_paddle = Paddle::new(
            paddle_size.position.x,
            -PADDLE_HEIGHT,
            PADDLE_WIDTH,
            PADDLE_HEIGHT,
            speed,
        );
        let right_paddle = Paddle::new(
            width - paddle_size.position.x,
            -PADDLE_HEIGHT,
            PADDLE_WIDTH,
            PADDLE_HEIGHT,
            speed,
        );
        let mut ball = Ball::new(BALL_SIZE, BALL_SIZE, width, height, speed, serve);
        ball.bounds.position.y = -ball.bounds.height;
        Game {
            width,
            height,
            center,
            paddle_size,
            speed,
            left_paddle,
            right_paddle,
            ball,
            started: false,
        }
    }

    /// Begins a match: a new round along `serve`, then running.
    pub fn start(&mut self, serve: Vector)
        requires
            old(self).wf(),
            is_direction(serve),
        ensures
            *final(self) == (Game { started: true, ..old(self).after_next_round(serve) }),
            final(self).wf(),
    {
        self.next_round(serve);
        self.started = true;
    }

    /// Ends a match: scores to zero, every piece hidden above the arena.
    pub fn stop(&mut self)
        requires
            old(self).wf_config(),
        ensures
            *final(self) == old(self).after_stop(),
            final(self).wf(),
    {
        self.reset_scores();
        self.hide_all();
        self.started = false;
    }

    /// Puts both paddles in play and serves the ball along `serve`; scores are kept.
    pub fn next_round(&mut self, serve: Vector)
        requires
            old(self).wf_config(),
            is_direction(serve),
        ensures
            *final(self) == old(self).after_next_round(serve),
            final(self).wf_config(),
    {
        self.left_paddle.bounds.position = Point::new(
            self.paddle_size.position.x,
            self.paddle_size.position.y,
        );
        self.right_paddle.bounds.position = Point::new(
            self.width - self.paddle_size.position.x,
            self.paddle_size.position.y,
        );
        self.ball.reset(self.width, self.height, serve);
    }

    pub fn reset_scores(&mut self)
        requires
            old(self).wf_config(),
        ensures
            *final(self) == old(self).after_reset_scores(),
            final(self).wf(),
    {
        self.left_paddle.score = 0;
        self.right_paddle.score = 0;
    }

    fn hide_all(&mut self)
        requires
            old(self).wf(),
        ensures
            *final(self) == old(self).after_hide_all(),
            final(self).wf(),
    {
        self.left_paddle.bounds.position.y = -self.paddle_size.height;
        self.right_paddle.bounds.position.y = -self.paddle_size.height;
        self.ball.direction = Vector::new(0, 0);
        self.ball.bounds.position.y = -self.ball.bounds.height;
    }

    /// Advances a running match by `delta_time`; a stopped one stays as it is.
    /// `serve` is the direction of the ball if a goal starts a new round.
    pub fn tick(&mut self, delta_time: i64, movement: Option<Movement>, serve: Vector)
        requires
            old(self).wf(),
            0 <= delta_time <= DELTA_LIMIT,
            is_direction(serve),
        ensures
            *final(self) == old(self).after_tick(delta_time as int, movement, serve),
            final(self).wf(),
    {
        if self.started {
            self.internal_tick(delta_time, movement, serve);
        }
    }

    fn internal_tick(&mut self, delta_time: i64, movement: Option<Movement>, serve: Vector)
        requires
            old(self).wf(),
            old(self).started,
            0 <= delta_time <= DELTA_LIMIT,
            is_direction(serve),
        ensures
            *final(self) == old(self).after_tick(delta_time as int, movement, serve),
            final(self).wf(),
    {
        proof {
            lemma_travel_bound(self.speed as int, delta_time as int);
            let d = crate::fixed::fmul(self.speed as int, delta_time as int);
            lemma_fmul_by_fraction(self.ball.direction.x as int, d);
            lemma_fmul_by_fraction(self.ball.direction.y as int, d);
        }
        self.ball.apply_movement(delta_time);
        self.check_goals(serve);
        if self.left_paddle.score >= WIN_SCORE || self.right_paddle.score >= WIN_SCORE {
            self.stop();
        }
        self.check_collisions();
        match movement {
            Some(m) => {
                let vector = self.left_paddle.process_movement(m);
                proof {
                    lemma_travel_bound(self.speed as int, delta_time as int);
                    let d = crate::fixed::fmul(self.speed as int, delta_time as int);
                    lemma_fmul_by_fraction(vector.x as int, d);
                    lemma_fmul_by_fraction(vector.y as int, d);
                }
                self.left_paddle.apply_movement(delta_time, vector);
            },
            None => {},
        }
    }

    fn check_goals(&mut self, serve: Vector)
        requires
            old(self).wf(),
            is_direction(serve),
        ensures
            *final(self) == old(self).after_goal_check(serve),
            final(self).wf_config(),
    {
        if (self.ball.bounds.position.x as i128) + (self.ball.bounds.width as i128) < 0 {
            self.right_paddle.increment_score();
            self.next_round(serve);
        } else if self.ball.bounds.position.x > self.width {
            self.left_paddle.increment_score();
            self.next_round(serve);
        }
    }

    fn check_collisions(&mut self)
        requires
            old(self).wf(),
        ensures
            *final(self) == old(self).after_wall_bounce().after_paddle_hit(),
            final(self).wf(),
    {
        if self.is_colliding_bounds(&self.ball.bounds) {
            self.ball.direction = Vector::new(self.ball.direction.x, -self.ball.direction.y);
        }
        if self.left_paddle.bounds.overlaps(&self.ball.bounds) {
            proof {
                lemma_hit_factor_bound(self.left_paddle, self.ball);
            }
            let y = Game::hit_factor(&self.left_paddle, &self.ball);
            proof {
                lemma_bounce_direction(Vector { x: ONE, y });
            }
            self.ball.direction = Vector::new(ONE, y).normalize();
        } else if self.right_paddle.bounds.overlaps(&self.ball.bounds) {
            proof {
                lemma_hit_factor_bound(self.right_paddle, self.ball);
            }
            let y = Game::hit_factor(&self.right_paddle, &self.ball);
            proof {
                lemma_bounce_direction(Vector { x: (-ONE) as i64, y });
            }
            self.ball.direction = Vector::new(-ONE, y).normalize();
        }
    }

    fn is_colliding_bounds(&self, rect: &Rect) -> (r: bool)
        ensures
            r == hits_wall(*rect, self.height as int),
    {
        (rect.position.y as i128) < 0 || (rect.position.y as i128) + (rect.height as i128)
            > self.height as i128
    }

    fn hit_factor(paddle: &Paddle, ball: &Ball) -> (r: i64)
        requires
            paddle.bounds.height > 0,
            ball.bounds.height >= 0,
            abs(hit_factor_of(*paddle, *ball)) <= ONE * 2,
        ensures
            r == hit_factor_of(*paddle, *ball),
    {
        let ball_center = ball.bounds.position.y as i128 + (ball.bounds.height as i128) / 2;
        let paddle_center = paddle.bounds.position.y as i128 + (paddle.bounds.height as i128) / 2;
        (((ball_center - paddle_center) * ONE as i128) / paddle.bounds.height as i128) as i64
    }
}

/// A wall bounce keeps the horizontal component of the ball's direction, flips
/// the sign of the vertical one and keeps its length: when, after the goal and
/// win checks of a frame, the ball is past the top or bottom edge and overlaps
/// neither paddle, the frame ends with the direction so mirrored.
pub proof fn lemma_wall_bounce(
    g: Game,
    delta_time: int,
    movement: Option<Movement>,
    serve: Vector,
)
    requires
        g.wf(),
        g.started,
        0 <= delta_time <= DELTA_LIMIT,
        is_direction(serve),
        ({
            let h = g.after_ball_moved(delta_time).after_goal_check(serve).after_win_check();
            &&& hits_wall(h.ball.bounds, h.height as int)
            &&& !boxes_overlap(h.left_paddle.bounds, h.ball.bounds)
            &&& !boxes_overlap(h.right_paddle.bounds, h.ball.bounds)
        }),
    ensures
        ({
            let d = g.after_ball_moved(delta_time).after_goal_check(
                serve,
            ).after_win_check().ball.direction;
            let r = g.after_tick(delta_time, movement, serve).ball.direction;
            &&& r.x == d.x
            &&& r.y == -d.y
            &&& norm2(r.x as int, r.y as int) == norm2(d.x as int, d.y as int)
        }),
{
    let d = g.after_ball_moved(delta_time).after_goal_check(serve).after_win_check().ball.direction;
    assert(is_direction(d));
    assert(norm2(d.x as int, -d.y) == norm2(d.x as int, d.y as int)) by (nonlinear_arith);
}

/// After a goal the scorer's score rises by one, the other score stays, and the
/// ball is served again from the middle of the arena along the fresh direction.
/// The arena is wide and high enough that the served ball touches neither a wall
/// nor a paddle, and the goal does not win the match.
pub proof fn lemma_goal_scores(
    g: Game,
    delta_time: int,
    movement: Option<Movement>,
    serve: Vector,
)
    requires
        g.wf(),
        g.started,
        0 <= delta_time <= DELTA_LIMIT,
        is_direction(serve),
        g.width >= 6500,
        g.height >= 2000,
    ensures
        ({
            let m = g.after_ball_moved(delta_time).ball.bounds;
            let r = g.after_tick(delta_time, movement, serve);
            &&& (m.position.x + m.width < 0 && g.right_paddle.score + 1 < WIN_SCORE) ==> {
                &&& r.right_paddle.score == g.right_paddle.score + 1
                &&& r.left_paddle.score == g.left_paddle.score
                &&& r.ball.bounds.position == serve_position(g.width as int, g.height as int)
                &&& r.ball.direction == serve
            }
            &&& (m.position.x + m.width >= 0 && m.position.x > g.width && g.left_paddle.score + 1
                < WIN_SCORE) ==> {
                &&& r.left_paddle.score == g.left_paddle.score + 1
                &&& r.right_paddle.score == g.right_paddle.score
                &&& r.ball.bounds.position == serve_position(g.width as int, g.height as int)
                &&& r.ball.direction == serve
            }
        }),
{
}

/// A goal that brings a score to `WIN_SCORE` stops the match: the frame ends
/// stopped with both scores zero, and any later frame leaves the game as it is.
pub proof fn lemma_win_stops(
    g: Game,
    delta_time: int,
    movement: Option<Movement>,
    serve: Vector,
    next_delta_time: int,
    next_movement: Option<Movement>,
    next_serve: Vector,
)
    requires
        g.wf(),
        g.started,
        0 <= delta_time <= DELTA_LIMIT,
        is_direction(serve),
        ({
            let s = g.after_ball_moved(delta_time).after_goal_check(serve);
            s.left_paddle.score >= WIN_SCORE || s.right_paddle.score >= WIN_SCORE
        }),
    ensures
        ({
            let r = g.after_tick(delta_time, movement, serve);
            &&& !r.started
            &&& r.left_paddle.score == 0
            &&& r.right_paddle.score == 0
            &&& r.after_tick(next_delta_time, next_movement, next_serve) == r
        }),
{
}

} // verus!
