//! The game engine of Snake: a grid-bound snake that grows, turns and dies on
//! walls or on its own body, together with the per-tick step that ties the
//! engine to a display and an input source.

pub mod game;
pub mod geometry;
pub mod lemmas;
pub mod step;

pub use game::{Game, GameView, SnakeChange};
pub use geometry::{Coordinate, Direction, Turn};
pub use step::{game_step, tick, GameDisplay, GameInput, GROWTH_PERIOD, GROWTH_STEP};
