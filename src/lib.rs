pub mod board;
pub mod game;
pub mod pieces;
pub mod laws;
pub mod session;
