//! Deterministic rollback simulation core for a two-player tunnel-tank game.
//!
//! The library owns the fully deterministic game state, the per-tick system
//! pipeline, input encoding and prediction, rollback and resimulation, the
//! desync checksum, and the round state machine. Everything here is a pure
//! function of prior state plus the tick's inputs; rendering and transport
//! stay outside.

pub mod input;
pub mod rng;
pub mod state;
pub mod checksum;
pub mod rollback;
pub mod session;
pub mod step;
