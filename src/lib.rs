//! Fog-of-war visibility and per-player partial views of an event-sourced,
//! turn-based game state.

pub mod types;
pub mod map;
pub mod keyed;
pub mod state;
pub mod fow;
pub mod partial_state;
pub mod game;
pub mod game_state;
