//! Conway's Game of Life on a toroidal grid, with machine-checked contracts.
//!
//! The crate is organised in layers:
//!
//! * [`board`] holds the mathematical picture of one generation and the
//!   update rule, together with the laws that follow from them.
//! * [`patterns`] holds named patterns and the theorems about them: the
//!   block stands still, the blinker turns, the glider travels.
//! * [`cell`] and [`grid`] hold the executable lattice whose behaviour is
//!   stated in terms of that picture.
//! * [`game`] holds the simulation state that a front end drives: the live
//!   grid, the tick rate, the brush and the pause flag.
//! * [`shared`] holds the lock through which threads share that state.
//! * [`utils`] holds small numeric helpers.
//!
//! Windows, devices, drawing and timers are the front end's business: it
//! hands over what it polled as plain values and draws what it reads back.

pub mod board;
pub mod cell;
pub mod game;
pub mod grid;
pub mod patterns;
pub mod shared;
pub mod utils;
