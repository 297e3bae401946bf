//! A terminal tic-tac-toe engine: the 3x3 board, win/draw detection, an
//! optimal-move (minimax) computer opponent, and the turn state machine that
//! alternates human and computer plies. Rendering and keyboard handling live
//! outside this crate; the engine consumes plain cell selections and emits
//! boards and outcomes.

pub mod board;
pub mod models;
pub mod outcome;
pub mod search;
pub mod session;
