//! A frame-stepped pong match engine: a ball and two paddles in an arena,
//! wall and paddle bounces, goals, and the start / stop lifecycle of a match.
//!
//! All quantities are fixed-point integers in thousandths (see `fixed::ONE`):
//! lengths of a unit, seconds, and the components of directions. The random
//! launch direction of the ball is an argument of the calls that serve it.
pub mod fixed;
pub mod geometry;
pub mod entities;
pub mod game;
