//! Parsers for the game data files.

pub mod map;
pub mod mul;
pub mod multi;
pub mod tiles;
pub mod uop;
