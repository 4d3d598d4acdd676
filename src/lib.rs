//! A game of tic-tac-toe between a human and a computer that moves at random.
//!
//! `board` holds the grid, its cells and the winning lines; `game` holds one
//! round as a state machine; `input` reads the player's answers.
pub mod board;
pub mod game;
pub mod input;
