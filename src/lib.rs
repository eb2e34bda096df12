//! The state engine of a grid snake game: the snake's body, its facing, its
//! growth and collisions, food placement, and the game's state machine.
pub mod food;
pub mod game;
pub mod placement;
pub mod snake;
pub mod utils;
