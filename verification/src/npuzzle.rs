//! The puzzle itself: moves, tiles and the board.

pub mod action;
pub mod board;
pub mod errors;
pub mod tile;

pub use self::action::Action;
pub use self::board::Board;
pub use self::tile::Tile;
