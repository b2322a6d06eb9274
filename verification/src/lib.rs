//! Turn engine for a round-based dungeon-crawl dice game.
//!
//! The core is a phase-driven game-state machine (monster encounters, loot
//! resolution, dragon showdown, regroup/delve transitions) coupled with a
//! constrained multi-cursor selection container that keeps every cursor on a
//! legal position while the underlying collections change.

pub mod dice;
pub mod game;
pub mod hero;
pub mod phase;
pub mod rng;
pub mod treasure;
