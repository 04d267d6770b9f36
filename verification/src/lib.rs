//! Rules engine and adversarial search for a two-player tile game played on a
//! 6x6 board. Tiles have two sides, each encoding a 5x5 grid of movement and
//! capture actions relative to the tile's facing; a tile flips to its other
//! side after every action it performs.

pub mod board;
pub mod board_setup;
pub mod coordinates;
pub mod ai;
pub mod bag;
pub mod offset;
pub mod rng;
pub mod state;
pub mod tile;
pub mod units;
pub mod utils;
pub mod tile_side;
pub mod game_board;
pub mod geometry;

pub use coordinates::Coordinates;
