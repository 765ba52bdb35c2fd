pub mod game;
pub mod laws;
pub mod pictures;
pub mod words;
