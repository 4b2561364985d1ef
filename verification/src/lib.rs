//! The rules of a terminal typing game: what a key press does to the game,
//! which texts may be set, how mistakes are counted and read back, and what
//! the screen shows.

pub mod strings;
pub mod words;
pub mod text;
pub mod stats;
pub mod key_errors;
pub mod game;
pub mod score;
pub mod laws;
pub mod screen;
pub mod queries;
