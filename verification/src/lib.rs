//! Decision core for a competitive grid-game bot.
//!
//! Given the current board (dimensions, food, every snake's body segments)
//! and the acting snake's own position, the library chooses exactly one of
//! four cardinal directions for the current tick: it scores each direction
//! by attraction to food and repulsion from walls and body segments, prunes
//! the directions whose next cell is immediately fatal, and selects the
//! surviving direction with the highest score.

pub mod laws;
pub mod logic;
pub mod model;
pub mod scoring;
