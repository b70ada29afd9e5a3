//! A chess position and the squares its pieces may move to.
//!
//! [`Board`] holds the grid of squares and the capture score of each side;
//! [`get_legal_moves`] and [`legal_destinations`] list the squares a piece
//! may go to. Every function is specified over [`Position`], the
//! mathematical model of a board, and proved to meet its contract.

pub mod board;
pub mod coordinate;
pub mod error;
pub mod laws;
pub mod moves;
pub mod piece;
pub mod position;
pub mod render;

pub use board::Board;
pub use coordinate::Coordinate;
pub use error::MoveError;
pub use moves::{get_legal_moves, legal_destinations};
pub use piece::{piece_value, Color, Piece, Square};
pub use position::Position;
pub use render::{render, symbol};
