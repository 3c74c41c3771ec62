//! A two-player paddle-and-ball match, simulated frame by frame on
//! fixed-point numbers.

pub mod ball;
pub mod collision;
pub mod constants;
pub mod game;
pub mod input;
pub mod player;
pub mod position;
pub mod powerup;
pub mod spawn;
pub mod sweep;
pub mod trig;
pub mod units;
