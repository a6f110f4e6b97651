//! The built-in (core) modules shipped with the engine.

pub mod player_ships;
