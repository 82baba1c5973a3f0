//! A turn-based decision agent for a hexagonal-grid tree-growing board game.
//!
//! Each turn the caller hands the agent a full snapshot of the visible game
//! state (board topology, tree occupancy, day, sun points); the agent
//! enumerates the legal moves, scores them with a shadow/sun heuristic, and
//! returns one chosen move.
#![verifier::loop_isolation(false)]

pub mod actions;
pub mod board;
pub mod selector;
pub mod shadow;
