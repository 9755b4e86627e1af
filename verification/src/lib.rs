//! Server-side core of a two-player sea battle game: boards and fleets,
//! the per-game turn state machine, the registry of live games and the
//! matchmaking queue.

pub mod board;
pub mod cells;
pub mod error;
pub mod fleet;
pub mod dto;
pub mod player;
pub mod render;
pub mod trusted;
pub mod session;
pub mod strmap;
pub mod registry;
pub mod engine;
pub mod connection;
