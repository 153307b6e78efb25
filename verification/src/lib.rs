//! Rules and table coordination for a four-player, two-team pinochle variant.

pub mod board;
pub mod command;
pub mod game;
pub mod registry;
pub mod room;
pub mod table;
