//! A number-guessing game: the records of the running games, the store that
//! owns them, and the two operations that players reach, creating a game and
//! guessing.

pub mod game;
pub mod store;
pub mod service;
