//! A two-player match on a 3x3 board: the rules of the board, the shared
//! match state, and the per-player session that decides what to send and
//! when the turn passes.

pub mod board;
pub mod client;
pub mod game;
pub mod message;
pub mod session;
