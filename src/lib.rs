//! A falling-block puzzle engine: piece geometry, the playing grid, a
//! shuffled-bag randomizer and the state machine that drives a falling piece.

pub mod geometry;
pub mod board;
pub mod bag;
pub mod engine;

pub use bag::Bag;
pub use board::{Matrix, SIZE};
pub use engine::{Engine, GameOver, Move, Turn, SPAWN_X, SPAWN_Y};
pub use geometry::{Color, Coord, Kind, Offset, Piece, Rotation, HEIGHT, WIDTH};
