//! Core engine of a falling-block puzzle game: a shape catalog of the seven
//! tetrominoes, immutable falling pieces with pure transforms, and a board
//! that supports collision testing, merging a landed piece, and clearing
//! completed rows. Rendering, input and timing are left to the host program.

pub mod block;
pub mod board;
pub mod tetromino;
