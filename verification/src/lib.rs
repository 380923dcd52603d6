//! A headless trading card game engine: players, cards, turns and combat.
//!
//! The rules are stated in `rules` as functions from a game state and a command to the
//! next state and the command's result; `engine::CoreEngine::dispatch` is proved to
//! follow them exactly, and `laws` proves what holds of every command.

pub mod command;
pub mod engine;
pub mod event;
pub mod id_map;
pub mod laws;
pub mod model;
pub mod rules;

pub use command::Command;
pub use engine::CoreEngine;
pub use event::GameEvent;
pub use id_map::IdMap;
pub use model::{
    Card, CardDefinition, CardInstance, CardType, EffectDefinition, GameState, PlayerState,
    UnitStats, Zone,
};
pub mod placement;
pub mod outcomes;
