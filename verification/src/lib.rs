//! A rules engine for two-player tic-tac-toe against a randomly playing
//! automated opponent: board validation, turn and sign assignment, win and
//! draw detection, move legality checking, and in-memory storage of games
//! and player signs.

pub mod board;
pub mod game;
pub mod ids;
pub mod rng;
pub mod store;
