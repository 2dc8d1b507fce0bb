//! Hexagonal board geometry and the selection protocol of a turn-based dice game.
//!
//! The library turns taps on a drawn grid of hexagons into moves of the game. It
//! holds the geometry of the grid, with the conversion between pixels and cells; the
//! template of a grid and the tessellation that is drawn from it and from the board;
//! and the selection, which marks the attacker and the cells it threatens and finds
//! the legal action that a confirmed attack stands for.
//!
//! All arithmetic is exact integer arithmetic: wherever the geometry of a regular
//! hexagon calls for an irrational length, the nearest integer is found through an
//! integer square root, so every function has one mathematically defined result.
//!
//! The rules engine that owns the board is not part of the library. Its state comes
//! in as a `board::Turn`, and what it is to do next comes out as a value.

pub mod arith;
pub mod primitive;
pub mod hex;
pub mod dice;
pub mod board;
pub mod layout;
pub mod grid;
pub mod selection;
pub mod play;
pub mod setup;

pub use self::dice::DiceTemplate;
pub use self::dice::Position;
pub use self::grid::Tessellation;
pub use self::hex::pointy_hex_corner;
pub use self::primitive::Point;
pub use self::setup::game_3x3_init;
pub use self::setup::start_new_game;
