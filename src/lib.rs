pub mod piece;
pub mod board;
pub mod game;
pub mod text;
pub mod highscores;
pub mod basics;
pub mod random;
pub mod bits;
pub mod expr;
