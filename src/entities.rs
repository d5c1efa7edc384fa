//! The moving pieces of a match: paddles and the ball.
use vstd::prelude::*;
use crate::fixed::{fits_i64, fmul, saturate, ONE};
use crate::geometry::{Point, Rect, Vector};

verus! {

/// A discrete vertical movement request for a paddle.
#[derive(Clone, Copy, Debug, PartialEq, Eq, Structural)]
pub enum Movement {
    Up,
    Down,
}

/// The unit vector that a movement request stands for.
pub open spec fn movement_vector(m: Movement) -> Vector {
    match m {
        Movement::Up => Vector { x: 0, y: (-ONE) as i64 },
        Movement::Down => Vector { x: 0, y: ONE },
    }
}

/// The intermediate results of moving at `speed` for `delta_time` along `v` fit an `i64`.
pub open spec fn can_travel(speed: int, delta_time: int, v: Vector) -> bool {
    let d = fmul(speed, delta_time);
    fits_i64(d) && fits_i64(fmul(v.x as int, d)) && fits_i64(fmul(v.y as int, d))
}

/// `p` moved along `v` at `speed` for `delta_time`, saturating at the limits of `i64`.
pub open spec fn moved(p: Point, v: Vector, speed: int, delta_time: int) -> Point {
    let d = fmul(speed, delta_time);
    Point {
        x: saturate(p.x + fmul(v.x as int, d)) as i64,
        y: saturate(p.y + fmul(v.y as int, d)) as i64,
    }
}

fn displacement(v: Vector, speed: i64, delta_time: i64) -> (r: Vector)
    requires
        can_travel(speed as int, delta_time as int, v),
    ensures
        r.x == fmul(v.x as int, fmul(speed as int, delta_time as int)),
        r.y == fmul(v.y as int, fmul(speed as int, delta_time as int)),
{
    let distance = ((speed as i128 * delta_time as i128) / ONE as i128) as i64;
    v.scale_by(distance)
}

#[derive(Clone, Copy, Debug, PartialEq, Eq, Structural)]
pub struct Paddle {
    pub bounds: Rect,
    pub speed: i64,
    pub score: i32,
}

impl Paddle {
    pub fn new(x: i64, y: i64, width: i64, height: i64, speed: i64) -> (r: Paddle)
        ensures
            r.bounds == (Rect { position: Point { x, y }, width, height }),
            r.speed == speed,
            r.score == 0,
    {
        Paddle { bounds: Rect::new(x, y, width, height), speed, score: 0 }
    }

    pub fn increment_score(&mut self)
        requires
            old(self).score < i32::MAX,
        ensures
            *final(self) == (Paddle { score: (old(self).score + 1) as i32, ..*old(self) }),
    {
        self.score = self.score + 1;
    }

    /// Moves the paddle along `movement` at its speed. The paddle is not kept
    /// inside the arena.
    pub fn apply_movement(&mut self, delta_time: i64, movement: Vector)
        requires
            can_travel(old(self).speed as int, delta_time as int, movement),
        ensures
            *final(self) == (Paddle {
                bounds: Rect {
                    position: moved(
                        old(self).bounds.position,
                        movement,
                        old(self).speed as int,
                        delta_time as int,
                    ),
                    ..old(self).bounds
                },
                ..*old(self)
            }),
    {
        let vector = displacement(movement, self.speed, delta_time);
        self.bounds.position = self.bounds.position.translate_saturating(vector);
    }

    pub fn process_movement(&mut self, direction: Movement) -> (r: Vector)
        ensures
            r == movement_vector(direction),
            *final(self) == *old(self),
    {
        match direction {
            Movement::Up => Vector::new(0, -ONE),
            Movement::Down => Vector::new(0, ONE),
        }
    }
}

/// Where the ball is served from: the middle of the screen.
pub open spec fn serve_position(screen_width: int, screen_height: int) -> Point {
    Point { x: (screen_width / 2) as i64, y: (screen_height / 2) as i64 }
}

#[derive(Clone, Copy, Debug, PartialEq, Eq, Structural)]
pub struct Ball {
    pub bounds: Rect,
    pub direction: Vector,
    pub speed: i64,
}

impl Ball {
    /// A ball in the middle of the screen, heading along `direction`.
    pub fn new(
        width: i64,
        height: i64,
        screen_width: i64,
        screen_height: i64,
        speed: i64,
        direction: Vector,
    ) -> (r: Ball)
        requires
            screen_width >= 0,
            screen_height >= 0,
        ensures
            r.bounds == (Rect {
                position: serve_position(screen_width as int, screen_height as int),
                width,
                height,
            }),
            r.direction == direction,
            r.speed == speed,
    {
        let starting_point = Ball::start_position(screen_width, screen_height);
        Ball {
            bounds: Rect::new(starting_point.x, starting_point.y, width, height),
            direction,
            speed,
        }
    }

    pub fn apply_movement(&mut self, delta_time: i64)
        requires
            can_travel(old(self).speed as int, delta_time as int, old(self).direction),
        ensures
            *final(self) == (Ball {
                bounds: Rect {
                    position: moved(
                        old(self).bounds.position,
                        old(self).direction,
                        old(self).speed as int,
                        delta_time as int,
                    ),
                    ..old(self).bounds
                },
                ..*old(self)
            }),
    {
        let vector = displacement(self.direction, self.speed, delta_time);
        self.bounds.position = self.bounds.position.translate_saturating(vector);
    }

    fn start_position(screen_width: i64, screen_height: i64) -> (r: Point)
        requires
            screen_width >= 0,
            screen_height >= 0,
        ensures
            r == serve_position(screen_width as int, screen_height as int),
    {
        Point::new(screen_width / 2, screen_height / 2)
    }

    /// Serves the ball again from the middle of the screen along `direction`.
    pub fn reset(&mut self, screen_width: i64, screen_height: i64, direction: Vector)
        requires
            screen_width >= 0,
            screen_height >= 0,
        ensures
            *final(self) == (Ball {
                bounds: Rect {
                    position: serve_position(screen_width as int, screen_height as int),
                    ..old(self).bounds
                },
                direction,
                ..*old(self)
            }),
    {
        self.direction = direction;
        self.bounds.position = Ball::start_position(screen_width, screen_height);
    }
}

} // verus!
