//! A verified engine for a grid-based snake simulation: a chain of unit
//! segments that advances one cell per tick, grows when the head reaches the
//! food item, and keeps an always-contiguous, always-ordered body.

pub mod chain;
pub mod facing;
pub mod grid;
pub mod model;
mod rng;
pub mod snake;
pub mod timer;
