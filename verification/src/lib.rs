//! Run-progression core of a top-down survival game.
//!
//! The crate decides, tick by tick, which enemies appear, how the player
//! gathers experience and levels up, and when the match changes phase.
//! All quantities are integers: time is counted in nanoseconds, and lengths,
//! speeds and health in millionths of a unit (see [`units`]).

pub mod error;
pub mod units;
pub mod timer;
pub mod wave;
pub mod exp;
pub mod player;
pub mod enemy;
pub mod state;
pub mod game;
pub mod magnet;
pub mod background;
