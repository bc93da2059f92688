//! State-update core of a grid-based snake game.
//!
//! The library advances a snake over a fixed rectangular board in response to
//! two kinds of events: a directional key press and a periodic time tick.  It
//! detects collisions with the board border and the snake's own body, manages
//! the food lifecycle, and drives a game-over/restart cycle.  Rendering, input
//! polling and the event loop live outside the library; time is measured in
//! whole milliseconds.

pub mod game;
pub mod snake;
